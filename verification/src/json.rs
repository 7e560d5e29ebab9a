//! JSON as the library reads and writes it.
//!
//! Reading: a parsed JSON document is held as [`Json`], a value of the
//! library's own that the logic inspects the way `serde_json::Value` is
//! indexed (`v["key"]`, `v[0]`, `as_str`, `as_u64`, ...). Parsing text into it
//! is `serde_json`'s work, done where the text arrives.
//!
//! Writing: request bodies are framed here from pieces, each string written
//! as `serde_json` writes one (`json_string_literal`). Lists and maps of
//! strings are written and read back by `serde_json` itself.

use vstd::prelude::*;
use crate::text::{chars_of, same_text, string_of, concat};
use crate::keyed::{keyed_map, lemma_keyed_map_update, unique_keys};
use std::collections::BTreeMap;
use serde_json::Value;

verus! {

/// A JSON number. Only the integer forms are read by the library; a number
/// with a fraction or exponent is kept as `Float` without its value.
pub enum JsonNumber {
    /// A non-negative integer that fits in `u64`.
    PosInt(u64),
    /// A negative integer that fits in `i64`.
    NegInt(i64),
    /// Any other number.
    Float,
}

/// A JSON value. An object keeps its members in order, each key once.
pub enum Json {
    Null,
    Bool(bool),
    Number(JsonNumber),
    String(String),
    Array(Vec<Json>),
    Object(Vec<(String, Json)>),
}

/// `serde_json::Value`, a parsed JSON document.
#[verifier::external_type_specification]
#[verifier::external_body]
pub struct ExValue(Value);

/// What `serde_json::from_str::<serde_json::Value>` reads from `text`, in the
/// library's form: `None` when the text is not JSON.
pub uninterp spec fn json_parse(text: Seq<char>) -> Option<Json>;

/// Reads `text` with `serde_json::from_str::<serde_json::Value>` and gives
/// the value in the library's form (`json_of_value`), `None` when the text
/// is not JSON. The contract names the result: parsing depends on the text
/// alone.
#[verifier::external_body]
pub(crate) fn parse_json(text: &str) -> (r: Option<Json>)
    ensures
        r == json_parse(text@),
{
    match serde_json::from_str::<Value>(text) {
        Ok(v) => Some(json_of_value(&v)),
        Err(_) => None,
    }
}

/// The library's form of a `serde_json::Value`, one variant for one: an
/// integer keeps its value where it fits `u64` or `i64`, other numbers are
/// kept without it; object members keep their order. The conversion of
/// `parse_json`'s result.
#[verifier::external_body]
fn json_of_value(v: &Value) -> Json {
    match v {
        Value::Null => Json::Null,
        Value::Bool(b) => Json::Bool(*b),
        Value::Number(n) => Json::Number(match (n.as_u64(), n.as_i64()) {
            (Some(u), _) => JsonNumber::PosInt(u),
            (None, Some(i)) => JsonNumber::NegInt(i),
            _ => JsonNumber::Float,
        }),
        Value::String(t) => Json::String(t.clone()),
        Value::Array(a) => Json::Array(a.iter().map(json_of_value).collect()),
        Value::Object(m) => Json::Object(m.iter().map(|(k, x)| (k.clone(), json_of_value(x))).collect()),
    }
}

/// The value of the first member of `fields` named `key`.
pub open spec fn find_field(fields: Seq<(String, Json)>, key: Seq<char>) -> Option<Json>
    decreases fields.len(),
{
    if fields.len() == 0 {
        None
    } else if fields[0].0@ == key {
        Some(fields[0].1)
    } else {
        find_field(fields.drop_first(), key)
    }
}

/// `v[key]`: the member `key` of an object; `None` stands for the `Null`
/// that `serde_json` gives for a missing member or a value that is not an
/// object.
pub open spec fn field(v: Option<Json>, key: Seq<char>) -> Option<Json> {
    match v {
        Some(Json::Object(fields)) => find_field(fields@, key),
        _ => None,
    }
}

/// `v[i]`: the element `i` of an array, `None` standing for `Null` as above.
pub open spec fn element(v: Option<Json>, i: int) -> Option<Json> {
    match v {
        Some(Json::Array(items)) => if 0 <= i < items@.len() {
            Some(items@[i])
        } else {
            None
        },
        _ => None,
    }
}

/// `v.as_str()`.
pub open spec fn as_str(v: Option<Json>) -> Option<Seq<char>> {
    match v {
        Some(Json::String(s)) => Some(s@),
        _ => None,
    }
}

/// `v.as_u64()`.
pub open spec fn as_u64(v: Option<Json>) -> Option<u64> {
    match v {
        Some(Json::Number(JsonNumber::PosInt(n))) => Some(n),
        _ => None,
    }
}

/// `v.as_i64()`.
pub open spec fn as_i64(v: Option<Json>) -> Option<i64> {
    match v {
        Some(Json::Number(JsonNumber::PosInt(n))) => if n <= i64::MAX {
            Some(n as i64)
        } else {
            None
        },
        Some(Json::Number(JsonNumber::NegInt(n))) => Some(n),
        _ => None,
    }
}

/// `v.as_str().unwrap_or(default)`.
pub open spec fn str_or(v: Option<Json>, default: Seq<char>) -> Seq<char> {
    match as_str(v) {
        Some(s) => s,
        None => default,
    }
}

/// `v.as_u64().unwrap_or(0) as u32`: the low 32 bits of the number.
pub open spec fn u32_or_zero(v: Option<Json>) -> u32 {
    match as_u64(v) {
        Some(n) => (n % 0x1_0000_0000) as u32,
        None => 0,
    }
}

/// Computes `field` on a value that is present.
pub fn get_field<'a>(v: &'a Json, key: &str) -> (r: Option<&'a Json>)
    ensures
        match r {
            Some(x) => field(Some(*v), key@) == Some(*x),
            None => field(Some(*v), key@) is None,
        },
{
    match v {
        Json::Object(fields) => {
            let mut i: usize = 0;
            assert(fields@.skip(0) =~= fields@);
            while i < fields.len()
                invariant
                    i <= fields@.len(),
                    field(Some(*v), key@) == find_field(fields@, key@),
                    find_field(fields@, key@) == find_field(fields@.skip(i as int), key@),
                decreases fields.len() - i,
            {
                assert(fields@.skip(i as int).drop_first() =~= fields@.skip(i + 1));
                assert(fields@.skip(i as int)[0] == fields@[i as int]);
                if same_text(fields[i].0.as_str(), key) {
                    assert(fields@.skip(i as int)[0].0@ == key@);
                    assert(find_field(fields@.skip(i as int), key@) == Some(fields@[i as int].1));
                    return Some(&fields[i].1);
                }
                i = i + 1;
            }
            None
        },
        _ => None,
    }
}

/// Computes `field` on a value that may be missing.
pub fn get_field_opt<'a>(v: Option<&'a Json>, key: &str) -> (r: Option<&'a Json>)
    ensures
        match r {
            Some(x) => field(opt_json(v), key@) == Some(*x),
            None => field(opt_json(v), key@) is None,
        },
{
    match v {
        Some(x) => get_field(x, key),
        None => None,
    }
}

/// Computes `element` on a value that may be missing.
pub fn get_element<'a>(v: Option<&'a Json>, i: usize) -> (r: Option<&'a Json>)
    ensures
        match r {
            Some(x) => element(opt_json(v), i as int) == Some(*x),
            None => element(opt_json(v), i as int) is None,
        },
{
    match v {
        Some(Json::Array(items)) => {
            if i < items.len() {
                Some(&items[i])
            } else {
                None
            }
        },
        _ => None,
    }
}

/// The value behind an optional reference.
pub open spec fn opt_json(v: Option<&Json>) -> Option<Json> {
    match v {
        Some(x) => Some(*x),
        None => None,
    }
}

/// Computes `str_or`.
pub fn get_str_or(v: Option<&Json>, default: &str) -> (r: String)
    ensures
        r@ == str_or(opt_json(v), default@),
{
    match v {
        Some(Json::String(s)) => s.clone(),
        _ => default.to_owned(),
    }
}

/// Computes `u32_or_zero`.
pub fn get_u32_or_zero(v: Option<&Json>) -> (r: u32)
    ensures
        r == u32_or_zero(opt_json(v)),
{
    match v {
        Some(Json::Number(JsonNumber::PosInt(n))) => (*n % 0x1_0000_0000) as u32,
        _ => 0,
    }
}

/// Computes `as_i64`.
pub fn get_i64(v: Option<&Json>) -> (r: Option<i64>)
    ensures
        r == as_i64(opt_json(v)),
{
    match v {
        Some(Json::Number(JsonNumber::PosInt(n))) => if *n <= 9223372036854775807u64 {
            Some(*n as i64)
        } else {
            None
        },
        Some(Json::Number(JsonNumber::NegInt(n))) => Some(*n),
        _ => None,
    }
}

/// The strings among the elements of an array, in order: what
/// `v.as_array().map(|a| a.iter().filter_map(|x| x.as_str()).collect()).unwrap_or_default()`
/// gives (empty when `v` is not an array).
pub open spec fn array_strings(v: Option<Json>) -> Seq<Seq<char>> {
    match v {
        Some(Json::Array(items)) => strings_among(items@),
        _ => Seq::empty(),
    }
}

/// The strings among `items`, in order.
pub open spec fn strings_among(items: Seq<Json>) -> Seq<Seq<char>>
    decreases items.len(),
{
    if items.len() == 0 {
        Seq::empty()
    } else {
        strings_among(items.drop_last()) + match items.last() {
            Json::String(s) => seq![s@],
            _ => Seq::empty(),
        }
    }
}

/// The strings among `items` are all the text elements, in order: never
/// more than there are elements, each one an element's text, and when every
/// element is a text, exactly the elements' texts, one for each.
pub proof fn lemma_strings_among(items: Seq<Json>)
    ensures
        strings_among(items).len() <= items.len(),
        forall|i: int|
            #![trigger strings_among(items)[i]]
            0 <= i < strings_among(items).len() ==> exists|k: int|
                0 <= k < items.len() && #[trigger] as_str(Some(items[k])) == Some(
                    strings_among(items)[i],
                ),
        (forall|i: int| 0 <= i < items.len() ==> #[trigger] items[i] is String) ==> {
            &&& strings_among(items).len() == items.len()
            &&& forall|i: int|
                0 <= i < items.len() ==> #[trigger] as_str(Some(items[i])) == Some(
                    strings_among(items)[i],
                )
        },
    decreases items.len(),
{
    if items.len() > 0 {
        let prev = items.drop_last();
        lemma_strings_among(prev);
        let all = strings_among(items);
        let before = strings_among(prev);
        assert forall|i: int| #![trigger all[i]] 0 <= i < all.len() implies exists|k: int|
            0 <= k < items.len() && #[trigger] as_str(Some(items[k])) == Some(all[i]) by {
            if i < before.len() {
                assert(all[i] == before[i]);
                let k = choose|k: int|
                    0 <= k < prev.len() && #[trigger] as_str(Some(prev[k])) == Some(before[i]);
                assert(items[k] == prev[k]);
                assert(as_str(Some(items[k])) == Some(all[i]));
            } else {
                let n = items.len() - 1;
                assert(items[n] == items.last());
                assert(all == before + match items.last() {
                    Json::String(t) => seq![t@],
                    _ => Seq::<Seq<char>>::empty(),
                });
                assert(as_str(Some(items[n])) == Some(all[i]));
            }
        }
        if forall|i: int| 0 <= i < items.len() ==> #[trigger] items[i] is String {
            assert forall|i: int| 0 <= i < prev.len() implies #[trigger] prev[i] is String by {
                assert(prev[i] == items[i]);
            }
            assert forall|i: int| 0 <= i < items.len() implies #[trigger] as_str(Some(items[i])) == Some(all[i]) by {
                if i < prev.len() {
                    assert(prev[i] == items[i]);
                    assert(all[i] == before[i]);
                } else {
                    assert(items[i] == items.last());
                }
            }
        }
    }
}

/// The views of a vector of strings.
pub open spec fn views(v: Seq<String>) -> Seq<Seq<char>> {
    v.map_values(|s: String| s@)
}

/// Computes `array_strings`.
pub fn get_array_strings(v: Option<&Json>) -> (r: Vec<String>)
    ensures
        views(r@) == array_strings(opt_json(v)),
{
    let mut out: Vec<String> = Vec::new();
    match v {
        Some(Json::Array(items)) => {
            let mut i: usize = 0;
            while i < items.len()
                invariant
                    i <= items@.len(),
                    views(out@) == strings_among(items@.take(i as int)),
                decreases items.len() - i,
            {
                assert(items@.take(i + 1).drop_last() =~= items@.take(i as int));
                match &items[i] {
                    Json::String(s) => {
                        out.push(s.clone());
                    },
                    _ => {},
                }
                proof {
                    assert(views(out@) =~= strings_among(items@.take(i + 1)));
                }
                i = i + 1;
            }
            assert(items@.take(items@.len() as int) =~= items@);
        },
        _ => {
            assert(views(out@) =~= Seq::<Seq<char>>::empty());
        },
    }
    out
}

// ---------------------------------------------------------------------------
// serde_json's encoding and decoding of strings, lists and maps of strings
// ---------------------------------------------------------------------------

/// A hexadecimal digit (`d` below 16), in lower case.
pub open spec fn hex_digit(d: nat) -> char {
    if d < 10 {
        ((48 + d) as u8) as char
    } else {
        ((87 + d) as u8) as char
    }
}

/// How `serde_json` writes a character inside a string literal: the quote
/// and the backslash behind a backslash, the control characters with a
/// short escape where JSON has one and as `\u00XX` otherwise, every other
/// character as it is.
pub open spec fn escaped_char(c: char) -> Seq<char> {
    if c == '"' {
        seq!['\\', '"']
    } else if c == '\\' {
        seq!['\\', '\\']
    } else if c == '\u{8}' {
        seq!['\\', 'b']
    } else if c == '\u{c}' {
        seq!['\\', 'f']
    } else if c == '\n' {
        seq!['\\', 'n']
    } else if c == '\r' {
        seq!['\\', 'r']
    } else if c == '\t' {
        seq!['\\', 't']
    } else if (c as u32) < 0x20 {
        seq!['\\', 'u', '0', '0', hex_digit((c as u32 / 16) as nat), hex_digit((c as u32 % 16) as nat)]
    } else {
        seq![c]
    }
}

/// The characters of `s`, each written as `escaped_char` writes it.
pub open spec fn escaped(s: Seq<char>) -> Seq<char>
    decreases s.len(),
{
    if s.len() == 0 {
        Seq::empty()
    } else {
        escaped(s.drop_last()) + escaped_char(s.last())
    }
}

/// The JSON string literal for `s`, as `serde_json` writes a string: the
/// escaped characters between double quotes.
pub open spec fn json_string_literal(s: Seq<char>) -> Seq<char> {
    seq!['"'] + escaped(s) + seq!['"']
}

/// Computes `hex_digit`.
fn hex_digit_exec(d: u32) -> (c: char)
    requires
        d < 16,
    ensures
        c == hex_digit(d as nat),
{
    if d < 10 {
        ((48 + d) as u8) as char
    } else {
        ((87 + d) as u8) as char
    }
}

/// Appends `escaped_char(c)` to `out`.
fn push_escaped(out: &mut Vec<char>, c: char)
    ensures
        final(out)@ == old(out)@ + escaped_char(c),
{
    let ghost before = out@;
    if c == '"' {
        out.push('\\');
        out.push('"');
    } else if c == '\\' {
        out.push('\\');
        out.push('\\');
    } else if c == '\u{8}' {
        out.push('\\');
        out.push('b');
    } else if c == '\u{c}' {
        out.push('\\');
        out.push('f');
    } else if c == '\n' {
        out.push('\\');
        out.push('n');
    } else if c == '\r' {
        out.push('\\');
        out.push('r');
    } else if c == '\t' {
        out.push('\\');
        out.push('t');
    } else if (c as u32) < 0x20 {
        let u = c as u32;
        out.push('\\');
        out.push('u');
        out.push('0');
        out.push('0');
        out.push(hex_digit_exec(u / 16));
        out.push(hex_digit_exec(u % 16));
    } else {
        out.push(c);
    }
    assert(out@ =~= before + escaped_char(c));
}

/// The JSON string literal for `s`, as `serde_json::to_string` writes a
/// string.
pub fn quote(s: &str) -> (r: String)
    ensures
        r@ == json_string_literal(s@),
{
    let v = chars_of(s);
    let mut out: Vec<char> = Vec::new();
    out.push('"');
    let mut i: usize = 0;
    while i < v.len()
        invariant
            v@ == s@,
            i <= v.len(),
            out@ == seq!['"'] + escaped(v@.take(i as int)),
        decreases v.len() - i,
    {
        proof {
            assert(v@.take(i + 1).drop_last() =~= v@.take(i as int));
            assert(v@.take(i + 1).last() == v@[i as int]);
        }
        push_escaped(&mut out, v[i]);
        proof {
            assert(out@ =~= seq!['"'] + escaped(v@.take(i + 1)));
        }
        i = i + 1;
    }
    out.push('"');
    assert(v@.take(v.len() as int) =~= v@);
    assert(out@ =~= json_string_literal(s@));
    string_of(out.as_slice())
}

/// The JSON text `serde_json` writes for a list of strings: the literal of
/// each string, separated by commas, between brackets.
pub open spec fn json_encode_strings(list: Seq<Seq<char>>) -> Seq<char> {
    json_array(list.map_values(|s: Seq<char>| json_string_literal(s)))
}

/// What `serde_json::from_str::<Vec<String>>` gives for `text`: the list, or
/// `None` when the text is not a JSON array of strings.
pub uninterp spec fn json_decode_strings(text: Seq<char>) -> Option<Seq<Seq<char>>>;

/// `serde_json::to_string(list)` for a `Vec<String>` (the error arm, which
/// serialising strings never takes, gives an empty string). The contract
/// states the compact text the writer produces (`[`, the escaped literals
/// separated by `,`, `]`), and that reading it back with
/// `serde_json::from_str::<Vec<String>>` gives the list again: the reader
/// (`parse_str`) undoes exactly the escapes of `format_escaped_str`.
#[verifier::external_body]
pub(crate) fn encode_strings(list: &Vec<String>) -> (r: String)
    ensures
        r@ == json_encode_strings(views(list@)),
        json_decode_strings(r@) == Some(views(list@)),
{
    match serde_json::to_string(list) {
        Ok(t) => t,
        Err(_) => String::new(),
    }
}

/// `serde_json::from_str::<Vec<String>>(text)`, `None` on an error.
#[verifier::external_body]
pub(crate) fn decode_strings(text: &str) -> (r: Option<Vec<String>>)
    ensures
        match r {
            Some(v) => json_decode_strings(text@) == Some(views(v@)),
            None => json_decode_strings(text@) is None,
        },
{
    match serde_json::from_str::<Vec<String>>(text) {
        Ok(v) => Some(v),
        Err(_) => None,
    }
}

/// The map that a list of pairs gives when the pairs are inserted in order
/// (a later pair replaces an earlier one with the same key).
pub open spec fn pairs_map(pairs: Seq<(Seq<char>, Seq<char>)>) -> Map<Seq<char>, Seq<char>> {
    keyed_map(pairs)
}

/// The views of a vector of string pairs.
pub open spec fn pair_views(v: Seq<(String, String)>) -> Seq<(Seq<char>, Seq<char>)> {
    v.map_values(|p: (String, String)| (p.0@, p.1@))
}

/// No two pairs share a key.
pub open spec fn distinct_keys(v: Seq<(String, String)>) -> bool {
    forall|i: int, j: int| 0 <= i < j < v.len() ==> v[i].0@ != v[j].0@
}

/// `a` comes before `b` in the order of `String` (byte order of UTF-8, which
/// is the order of the characters): the first differing character is the
/// smaller, or `a` is a proper prefix of `b`.
pub open spec fn text_before(a: Seq<char>, b: Seq<char>) -> bool
    decreases a.len(),
{
    if a.len() == 0 {
        b.len() > 0
    } else if b.len() == 0 {
        false
    } else if a[0] == b[0] {
        text_before(a.drop_first(), b.drop_first())
    } else {
        (a[0] as u32) < (b[0] as u32)
    }
}

/// The entries are in ascending order of their keys.
pub open spec fn keys_ascending(e: Seq<(Seq<char>, Seq<char>)>) -> bool {
    forall|i: int, j: int| 0 <= i < j < e.len() ==> text_before(#[trigger] e[i].0, #[trigger] e[j].0)
}

/// The compact JSON object with the entries as members, each value written
/// as a string literal.
pub open spec fn string_map_text(e: Seq<(Seq<char>, Seq<char>)>) -> Seq<char> {
    json_object(e.map_values(|kv: (Seq<char>, Seq<char>)| (kv.0, json_string_literal(kv.1))))
}

/// The JSON text `serde_json` writes for a map from strings to strings held
/// in a `BTreeMap`: its entries in ascending key order (there is one such
/// list of entries for a finite map).
pub open spec fn json_encode_string_map(m: Map<Seq<char>, Seq<char>>) -> Seq<char> {
    string_map_text(choose|e: Seq<(Seq<char>, Seq<char>)>| keys_ascending(e) && keyed_map(e) == m)
}

/// What `serde_json::from_str` gives for `text` read as a map from strings to
/// strings, `None` when it is not a JSON object of strings.
pub uninterp spec fn json_decode_string_map(text: Seq<char>) -> Option<Map<Seq<char>, Seq<char>>>;

/// The pairs with each key once, the value of each key being its last
/// value in `pairs`: the same map, in the order the keys first occur.
pub fn last_of_each_key(pairs: &Vec<(String, String)>) -> (r: Vec<(String, String)>)
    ensures
        distinct_keys(r@),
        pairs_map(pair_views(r@)) == pairs_map(pair_views(pairs@)),
{
    let mut r: Vec<(String, String)> = Vec::new();
    let mut i: usize = 0;
    assert(pair_views(r@) =~= Seq::<(Seq<char>, Seq<char>)>::empty());
    assert(pair_views(pairs@).take(0) =~= Seq::<(Seq<char>, Seq<char>)>::empty());
    while i < pairs.len()
        invariant
            i <= pairs@.len(),
            distinct_keys(r@),
            pairs_map(pair_views(r@)) == pairs_map(pair_views(pairs@).take(i as int)),
        decreases pairs.len() - i,
    {
        let key = pairs[i].0.clone();
        let value = pairs[i].1.clone();
        proof {
            assert(pair_views(pairs@).take(i + 1).drop_last() =~= pair_views(pairs@).take(i as int));
            assert(pair_views(pairs@).take(i + 1).last() == (key@, value@));
        }
        let mut j: usize = 0;
        while j < r.len() && !same_text(r[j].0.as_str(), key.as_str())
            invariant
                j <= r@.len(),
                forall|k: int| 0 <= k < j ==> r@[k].0@ != key@,
            decreases r.len() - j,
        {
            j = j + 1;
        }
        let ghost before = pair_views(r@);
        proof {
            assert(unique_keys(before)) by {
                assert forall|a: int, b: int| 0 <= a < b < before.len() implies before[a].0
                    != before[b].0 by {
                    assert(before[a].0 == r@[a].0@);
                    assert(before[b].0 == r@[b].0@);
                }
            }
        }
        if j < r.len() {
            proof {
                lemma_keyed_map_update(before, j as int, value@);
            }
            r.set(j, (key, value));
            proof {
                assert(pair_views(r@) =~= before.update(j as int, (before[j as int].0, value@)));
            }
        } else {
            r.push((key, value));
            proof {
                assert(pair_views(r@).drop_last() =~= before);
            }
        }
        i = i + 1;
    }
    assert(pair_views(pairs@).take(pairs@.len() as int) =~= pair_views(pairs@));
    r
}

/// `serde_json::to_string` of the map that the pairs make: the pairs, whose
/// keys are distinct, are collected into a `BTreeMap`, which holds each of
/// them (the error arm, which a map of strings never takes, gives an empty
/// string). The contract states the compact text the writer produces (the
/// members in the map's key order), and that reading the text back as a map
/// gives the same map: keys and values are written with
/// `format_escaped_str` and read back by `parse_str`, which undoes the
/// escapes.
#[verifier::external_body]
pub(crate) fn encode_string_map(pairs: &Vec<(String, String)>) -> (r: String)
    requires
        distinct_keys(pairs@),
    ensures
        r@ == json_encode_string_map(pairs_map(pair_views(pairs@))),
        json_decode_string_map(r@) == Some(pairs_map(pair_views(pairs@))),
{
    let m: BTreeMap<String, String> = pairs.iter().cloned().collect();
    match serde_json::to_string(&m) {
        Ok(t) => t,
        Err(_) => String::new(),
    }
}

/// `serde_json::from_str::<BTreeMap<String, String>>(text)` as a list of
/// pairs in key order, `None` on an error. Each key occurs once, and the
/// pairs make the decoded map.
#[verifier::external_body]
pub(crate) fn decode_string_map(text: &str) -> (r: Option<Vec<(String, String)>>)
    ensures
        match r {
            Some(v) => distinct_keys(v@) && json_decode_string_map(text@) == Some(
                pairs_map(pair_views(v@)),
            ),
            None => json_decode_string_map(text@) is None,
        },
{
    match serde_json::from_str::<BTreeMap<String, String>>(text) {
        Ok(m) => Some(m.into_iter().collect()),
        Err(_) => None,
    }
}

// ---------------------------------------------------------------------------
// Framing JSON text from pieces
// ---------------------------------------------------------------------------

/// The pieces joined with `sep` between each two.
pub open spec fn join(pieces: Seq<Seq<char>>, sep: Seq<char>) -> Seq<char>
    decreases pieces.len(),
{
    if pieces.len() == 0 {
        Seq::empty()
    } else if pieces.len() == 1 {
        pieces[0]
    } else {
        join(pieces.drop_last(), sep) + sep + pieces.last()
    }
}

/// A member `"key":value`, the value given as JSON text.
pub open spec fn member(entry: (Seq<char>, Seq<char>)) -> Seq<char> {
    json_string_literal(entry.0) + seq![':'] + entry.1
}

/// The compact JSON object with the given members, in the given order.
pub open spec fn json_object(entries: Seq<(Seq<char>, Seq<char>)>) -> Seq<char> {
    seq!['{'] + join(entries.map_values(|e: (Seq<char>, Seq<char>)| member(e)), seq![',']) + seq![
        '}',
    ]
}

/// The compact JSON array with the given elements (each JSON text).
pub open spec fn json_array(items: Seq<Seq<char>>) -> Seq<char> {
    seq!['['] + join(items, seq![',']) + seq![']']
}

/// Joins the pieces with `sep`.
pub fn join_exec(pieces: &Vec<String>, sep: &str) -> (r: String)
    ensures
        r@ == join(views(pieces@), sep@),
{
    let mut out: Vec<char> = Vec::new();
    let s = chars_of(sep);
    let mut i: usize = 0;
    while i < pieces.len()
        invariant
            s@ == sep@,
            i <= pieces@.len(),
            out@ == join(views(pieces@).take(i as int), sep@),
        decreases pieces.len() - i,
    {
        let mut p = chars_of(pieces[i].as_str());
        proof {
            assert(views(pieces@).take(i + 1).drop_last() =~= views(pieces@).take(i as int));
            assert(views(pieces@).take(i + 1).last() == pieces@[i as int]@);
        }
        if i == 0 {
            assert(views(pieces@).take(1) =~= seq![pieces@[0]@]);
            out.append(&mut p);
        } else {
            let mut t = s.clone();
            out.append(&mut t);
            out.append(&mut p);
        }
        i = i + 1;
    }
    assert(views(pieces@).take(pieces@.len() as int) =~= views(pieces@));
    string_of(out.as_slice())
}

/// The member `"key":value` for a value given as JSON text.
pub fn member_exec(key: &str, value: &str) -> (r: String)
    ensures
        r@ == member((key@, value@)),
{
    let q = quote(key);
    let k = concat(q.as_str(), ":");
    proof {
        reveal_strlit(":");
    }
    concat(k.as_str(), value)
}

/// The JSON object with the given members (key, value as JSON text).
pub fn object_exec(entries: &Vec<(String, String)>) -> (r: String)
    ensures
        r@ == json_object(pair_views(entries@)),
{
    let mut members: Vec<String> = Vec::new();
    let mut i: usize = 0;
    while i < entries.len()
        invariant
            i <= entries@.len(),
            members@.len() == i,
            forall|j: int|
                0 <= j < i ==> #[trigger] members@[j]@ == member(pair_views(entries@)[j]),
        decreases entries.len() - i,
    {
        let m = member_exec(entries[i].0.as_str(), entries[i].1.as_str());
        members.push(m);
        i = i + 1;
    }
    let body = join_exec(&members, ",");
    proof {
        reveal_strlit(",");
        assert(views(members@) =~= pair_views(entries@).map_values(
            |e: (Seq<char>, Seq<char>)| member(e),
        ));
    }
    let open = concat("{", body.as_str());
    proof {
        reveal_strlit("{");
        reveal_strlit("}");
    }
    let r = concat(open.as_str(), "}");
    assert(","@ == seq![',']);
    assert("{"@ == seq!['{']);
    assert("}"@ == seq!['}']);
    assert(r@ =~= json_object(pair_views(entries@)));
    r
}

/// The JSON array with the given elements (each JSON text).
pub fn array_exec(items: &Vec<String>) -> (r: String)
    ensures
        r@ == json_array(views(items@)),
{
    let body = join_exec(items, ",");
    proof {
        reveal_strlit(",");
        reveal_strlit("[");
        reveal_strlit("]");
    }
    let open = concat("[", body.as_str());
    let r = concat(open.as_str(), "]");
    assert(","@ == seq![',']);
    assert("["@ == seq!['[']);
    assert("]"@ == seq![']']);
    assert(r@ =~= json_array(views(items@)));
    r
}

} // verus!
