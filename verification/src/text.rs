//! Character-level text utilities shared by the collectors, the processors and
//! the push adapters.
//!
//! Text is handled as a sequence of `char`s (the view of `str` and `String`);
//! where a byte length is measured, the UTF-8 encoding of vstd
//! (`encode_utf8`) is used, which is what `str::len` returns.

use vstd::prelude::*;
use vstd::string::StringExecFns;
use vstd::utf8::encode_utf8;

verus! {

// ---------------------------------------------------------------------------
// Conversions between `str`, `String` and `Vec<char>`
// ---------------------------------------------------------------------------

/// The characters of `s`, in order.
pub fn chars_of(s: &str) -> (v: Vec<char>)
    ensures
        v@ == s@,
{
    let mut v: Vec<char> = Vec::new();
    for c in it: s.chars()
        invariant
            v@ == it.seq().take(it.index() as int),
            it.seq() == s@,
    {
        v.push(c);
    }
    v
}

/// The string made of the characters of `v`, built by
/// `std`'s `String::from_iter` over `char`s; it holds exactly those
/// characters in order.
#[verifier::external_body]
pub(crate) fn string_of(v: &[char]) -> (s: String)
    ensures
        s@ == v@,
{
    String::from_iter(v.iter())
}

/// An owned copy of `s`.
pub fn owned(s: &str) -> (r: String)
    ensures
        r@ == s@,
{
    s.to_owned()
}

/// `a` followed by `b`.
pub fn concat(a: &str, b: &str) -> (r: String)
    ensures
        r@ == a@ + b@,
{
    let mut r = a.to_owned();
    r.append(b);
    r
}

/// The characters `v[from..to]` as a new vector.
pub fn sub_chars(v: &Vec<char>, from: usize, to: usize) -> (r: Vec<char>)
    requires
        from <= to <= v.len(),
    ensures
        r@ == v@.subrange(from as int, to as int),
{
    let mut r: Vec<char> = Vec::new();
    let mut i = from;
    while i < to
        invariant
            from <= i <= to <= v.len(),
            r@ == v@.subrange(from as int, i as int),
        decreases to - i,
    {
        r.push(v[i]);
        i = i + 1;
    }
    r
}

/// The string `v[from..to]`.
pub fn substring(v: &Vec<char>, from: usize, to: usize) -> (r: String)
    requires
        from <= to <= v.len(),
    ensures
        r@ == v@.subrange(from as int, to as int),
{
    let w = sub_chars(v, from, to);
    string_of(w.as_slice())
}

/// Whether `a` and `b` hold the same characters.
pub fn same_text(a: &str, b: &str) -> (r: bool)
    ensures
        r == (a@ == b@),
{
    let x = chars_of(a);
    let y = chars_of(b);
    if x.len() != y.len() {
        return false;
    }
    let mut i: usize = 0;
    while i < x.len()
        invariant
            x@ == a@,
            y@ == b@,
            x.len() == y.len(),
            i <= x.len(),
            forall|j: int| 0 <= j < i ==> x@[j] == y@[j],
        decreases x.len() - i,
    {
        if x[i] != y[i] {
            return false;
        }
        i = i + 1;
    }
    assert(x@ =~= y@);
    true
}

/// The number of bytes of the UTF-8 encoding of `s`, as `str::len` gives it.
pub open spec fn byte_len(s: Seq<char>) -> nat {
    encode_utf8(s).len()
}

/// The number of bytes of the UTF-8 encoding of `c`.
pub open spec fn utf8_width(c: char) -> nat {
    let u = c as u32;
    if u <= 0x7F {
        1
    } else if u <= 0x7FF {
        2
    } else if u <= 0xFFFF {
        3
    } else {
        4
    }
}

/// The sum of the UTF-8 widths of the characters of `s`.
pub open spec fn width_sum(s: Seq<char>) -> nat
    decreases s.len(),
{
    if s.len() == 0 {
        0
    } else {
        utf8_width(s[0]) + width_sum(s.drop_first())
    }
}

/// The UTF-8 encoding is as long as the sum of the character widths.
pub proof fn lemma_byte_len(s: Seq<char>)
    ensures
        byte_len(s) == width_sum(s),
    decreases s.len(),
{
    if s.len() > 0 {
        vstd::utf8::char_is_scalar(s[0]);
        lemma_byte_len(s.drop_first());
    }
}

proof fn lemma_width_sum_take(s: Seq<char>, i: int)
    requires
        0 <= i < s.len(),
    ensures
        width_sum(s.take(i + 1)) == width_sum(s.take(i)) + utf8_width(s[i]),
    decreases i,
{
    if i > 0 {
        assert(s.take(i + 1).drop_first() =~= s.drop_first().take(i));
        assert(s.take(i).drop_first() =~= s.drop_first().take(i - 1));
        lemma_width_sum_take(s.drop_first(), i - 1);
    } else {
        assert(s.take(1).drop_first() =~= Seq::<char>::empty());
        assert(s.take(0) =~= Seq::<char>::empty());
    }
}

proof fn lemma_width_sum_prefix(s: Seq<char>, i: int)
    requires
        0 <= i <= s.len(),
    ensures
        width_sum(s.take(i)) <= width_sum(s),
    decreases s.len() - i,
{
    if i < s.len() {
        lemma_width_sum_take(s, i);
        lemma_width_sum_prefix(s, i + 1);
    } else {
        assert(s.take(i) =~= s);
    }
}

fn utf8_width_exec(c: char) -> (w: usize)
    ensures
        w == utf8_width(c),
{
    let u = c as u32;
    if u <= 0x7F {
        1
    } else if u <= 0x7FF {
        2
    } else if u <= 0xFFFF {
        3
    } else {
        4
    }
}

/// Whether the UTF-8 encoding of `v` is longer than `n` bytes.
pub fn byte_len_exceeds(v: &Vec<char>, n: usize) -> (r: bool)
    requires
        n <= usize::MAX - 4,
    ensures
        r == (byte_len(v@) > n),
{
    proof {
        lemma_byte_len(v@);
    }
    let mut total: usize = 0;
    let mut i: usize = 0;
    assert(v@.take(0) =~= Seq::<char>::empty());
    while i < v.len()
        invariant
            n <= usize::MAX - 4,
            i <= v.len(),
            total == width_sum(v@.take(i as int)),
            total <= n,
            byte_len(v@) == width_sum(v@),
        decreases v.len() - i,
    {
        proof {
            lemma_width_sum_take(v@, i as int);
        }
        total = total + utf8_width_exec(v[i]);
        i = i + 1;
        if total > n {
            proof {
                lemma_width_sum_prefix(v@, i as int);
            }
            return true;
        }
    }
    assert(v@.take(v.len() as int) =~= v@);
    false
}

// ---------------------------------------------------------------------------
// Searching
// ---------------------------------------------------------------------------

/// `lit` occurs in `t` at position `p`.
pub open spec fn starts_at(t: Seq<char>, p: int, lit: Seq<char>) -> bool {
    0 <= p && p + lit.len() <= t.len() && t.subrange(p, p + lit.len()) == lit
}

/// Whether `lit` occurs in `t` at position `p`.
pub fn starts_at_exec(t: &Vec<char>, p: usize, lit: &Vec<char>) -> (r: bool)
    ensures
        r == starts_at(t@, p as int, lit@),
{
    if p > t.len() || lit.len() > t.len() - p {
        return false;
    }
    let mut i: usize = 0;
    while i < lit.len()
        invariant
            p + lit.len() <= t.len(),
            i <= lit.len(),
            forall|j: int| 0 <= j < i ==> t@[p + j] == lit@[j],
        decreases lit.len() - i,
    {
        if t[p + i] != lit[i] {
            assert(t@.subrange(p as int, p + lit.len())[i as int] != lit@[i as int]);
            return false;
        }
        i = i + 1;
    }
    assert(t@.subrange(p as int, p + lit.len()) =~= lit@);
    true
}

/// The end of the shortest run `t[q..e]` without a newline that is followed by
/// `close` at `e`: how a lazy `(.*?)` followed by the literal `close` ends
/// when it starts at `q` (`.` does not match `\n`).
pub open spec fn find_lazy(t: Seq<char>, q: int, close: Seq<char>) -> Option<int>
    decreases t.len() - q,
{
    if q < 0 || q > t.len() {
        None
    } else if starts_at(t, q, close) {
        Some(q)
    } else if q == t.len() || t[q] == '\n' {
        None
    } else {
        find_lazy(t, q + 1, close)
    }
}

/// Computes `find_lazy`.
pub fn find_lazy_exec(t: &Vec<char>, start: usize, close: &Vec<char>) -> (r: Option<usize>)
    requires
        start <= t.len(),
    ensures
        match r {
            Some(e) => find_lazy(t@, start as int, close@) == Some(e as int),
            None => find_lazy(t@, start as int, close@) is None,
        },
{
    let mut q = start;
    loop
        invariant
            start <= q <= t.len(),
            find_lazy(t@, start as int, close@) == find_lazy(t@, q as int, close@),
        decreases t.len() - q,
    {
        if starts_at_exec(t, q, close) {
            return Some(q);
        }
        if q == t.len() || t[q] == '\n' {
            return None;
        }
        q = q + 1;
    }
}

/// The capture of `open (.*?) close` starting at `p`: the start and end of
/// the group and the end of the whole match.
pub open spec fn lazy_capture_at(t: Seq<char>, p: int, open: Seq<char>, close: Seq<char>) -> Option<
    (int, int, int),
> {
    if starts_at(t, p, open) {
        match find_lazy(t, p + open.len(), close) {
            Some(e) => Some((p + open.len(), e, e + close.len())),
            None => None,
        }
    } else {
        None
    }
}

/// The capture of the alternation `open1 (.*?) close1 | open2 (.*?) close2`
/// starting at `p`, with leftmost-first priority: the first component tells
/// whether the first alternative matched.
pub open spec fn alt_capture_at(
    t: Seq<char>,
    p: int,
    open1: Seq<char>,
    close1: Seq<char>,
    open2: Seq<char>,
    close2: Seq<char>,
) -> Option<(bool, int, int, int)> {
    match lazy_capture_at(t, p, open1, close1) {
        Some(c) => Some((true, c.0, c.1, c.2)),
        None => match lazy_capture_at(t, p, open2, close2) {
            Some(c) => Some((false, c.0, c.1, c.2)),
            None => None,
        },
    }
}

/// The leftmost match of the alternation at or after `s`.
pub open spec fn first_alt_capture(
    t: Seq<char>,
    s: int,
    open1: Seq<char>,
    close1: Seq<char>,
    open2: Seq<char>,
    close2: Seq<char>,
) -> Option<(bool, int, int, int)>
    decreases t.len() - s,
{
    if s < 0 || s > t.len() {
        None
    } else {
        match alt_capture_at(t, s, open1, close1, open2, close2) {
            Some(c) => Some(c),
            None => if s == t.len() {
                None
            } else {
                first_alt_capture(t, s + 1, open1, close1, open2, close2)
            },
        }
    }
}

/// The leftmost match of the single pattern `open (.*?) close` at or after `s`.
pub open spec fn first_capture(t: Seq<char>, s: int, open: Seq<char>, close: Seq<char>) -> Option<
    (bool, int, int, int),
> {
    first_alt_capture(t, s, open, close, open, close)
}

/// An exec capture corresponds to a spec capture.
pub open spec fn same_capture(
    e: Option<(bool, usize, usize, usize)>,
    s: Option<(bool, int, int, int)>,
) -> bool {
    match e {
        Some(c) => s == Some((c.0, c.1 as int, c.2 as int, c.3 as int)),
        None => s is None,
    }
}

proof fn lemma_find_lazy_bounds(t: Seq<char>, q: int, close: Seq<char>)
    requires
        0 <= q <= t.len(),
    ensures
        find_lazy(t, q, close) matches Some(e) ==> q <= e && e + close.len() <= t.len(),
    decreases t.len() - q,
{
    if !starts_at(t, q, close) && q < t.len() && t[q] != '\n' {
        lemma_find_lazy_bounds(t, q + 1, close);
    }
}

/// A capture found at or after `s` starts with `open` there: the opening
/// text stands at `c.1 - open.len()`, not before `s`, and the group and the
/// match end within the text.
pub proof fn lemma_first_capture_found(t: Seq<char>, s: int, open: Seq<char>, close: Seq<char>)
    requires
        0 <= s,
    ensures
        first_capture(t, s, open, close) matches Some(c) ==> {
            &&& starts_at(t, c.1 - open.len(), open)
            &&& s <= c.1 - open.len()
            &&& c.1 <= c.2 <= c.3 <= t.len()
        },
    decreases t.len() - s,
{
    if s <= t.len() {
        if starts_at(t, s, open) {
            lemma_find_lazy_bounds(t, s + open.len(), close);
        }
        if alt_capture_at(t, s, open, close, open, close) is None && s < t.len() {
            lemma_first_capture_found(t, s + 1, open, close);
        }
    }
}

/// Computes `lazy_capture_at`.
fn lazy_capture_at_exec(t: &Vec<char>, p: usize, open: &Vec<char>, close: &Vec<char>) -> (r: Option<
    (usize, usize, usize),
>)
    requires
        p <= t.len(),
    ensures
        match r {
            Some(c) => lazy_capture_at(t@, p as int, open@, close@) == Some(
                (c.0 as int, c.1 as int, c.2 as int),
            ) && c.2 <= t.len(),
            None => lazy_capture_at(t@, p as int, open@, close@) is None,
        },
{
    if !starts_at_exec(t, p, open) {
        return None;
    }
    let a = p + open.len();
    match find_lazy_exec(t, a, close) {
        Some(e) => {
            proof {
                lemma_find_lazy_bounds(t@, a as int, close@);
            }
            Some((a, e, e + close.len()))
        },
        None => None,
    }
}

/// Computes `first_alt_capture`.
pub fn first_alt_capture_exec(
    t: &Vec<char>,
    s: usize,
    open1: &Vec<char>,
    close1: &Vec<char>,
    open2: &Vec<char>,
    close2: &Vec<char>,
) -> (r: Option<(bool, usize, usize, usize)>)
    requires
        s <= t.len(),
    ensures
        same_capture(r, first_alt_capture(t@, s as int, open1@, close1@, open2@, close2@)),
        r matches Some(c) ==> s <= c.1 <= c.2 <= c.3 <= t.len(),
{
    let mut p = s;
    loop
        invariant
            s <= p <= t.len(),
            first_alt_capture(t@, s as int, open1@, close1@, open2@, close2@) == first_alt_capture(
                t@,
                p as int,
                open1@,
                close1@,
                open2@,
                close2@,
            ),
        decreases t.len() - p,
    {
        match lazy_capture_at_exec(t, p, open1, close1) {
            Some(c) => {
                proof {
                    lemma_find_lazy_bounds(t@, p + open1@.len(), close1@);
                }
                return Some((true, c.0, c.1, c.2));
            },
            None => {},
        }
        match lazy_capture_at_exec(t, p, open2, close2) {
            Some(c) => {
                proof {
                    lemma_find_lazy_bounds(t@, p + open2@.len(), close2@);
                }
                return Some((false, c.0, c.1, c.2));
            },
            None => {},
        }
        if p == t.len() {
            return None;
        }
        p = p + 1;
    }
}

// ---------------------------------------------------------------------------
// Whitespace and trimming
// ---------------------------------------------------------------------------

/// The Unicode `White_Space` property, which `char::is_whitespace` tests.
pub open spec fn is_whitespace(c: char) -> bool {
    let u = c as u32;
    ||| 0x09 <= u <= 0x0D
    ||| u == 0x20
    ||| u == 0x85
    ||| u == 0xA0
    ||| u == 0x1680
    ||| 0x2000 <= u <= 0x200A
    ||| u == 0x2028
    ||| u == 0x2029
    ||| u == 0x202F
    ||| u == 0x205F
    ||| u == 0x3000
}

/// Computes `is_whitespace`.
pub fn is_whitespace_exec(c: char) -> (r: bool)
    ensures
        r == is_whitespace(c),
{
    let u = c as u32;
    (0x09 <= u && u <= 0x0D) || u == 0x20 || u == 0x85 || u == 0xA0 || u == 0x1680 || (0x2000 <= u
        && u <= 0x200A) || u == 0x2028 || u == 0x2029 || u == 0x202F || u == 0x205F || u == 0x3000
}

/// `s` without its leading whitespace.
pub open spec fn trim_start(s: Seq<char>) -> Seq<char>
    decreases s.len(),
{
    if s.len() > 0 && is_whitespace(s[0]) {
        trim_start(s.drop_first())
    } else {
        s
    }
}

/// `s` without its trailing whitespace.
pub open spec fn trim_end(s: Seq<char>) -> Seq<char>
    decreases s.len(),
{
    if s.len() > 0 && is_whitespace(s.last()) {
        trim_end(s.drop_last())
    } else {
        s
    }
}

/// `s` without leading and trailing whitespace, as `str::trim` gives it.
pub open spec fn trim(s: Seq<char>) -> Seq<char> {
    trim_end(trim_start(s))
}

proof fn lemma_trim_start_skip(s: Seq<char>, i: int)
    requires
        0 <= i <= s.len(),
        forall|j: int| 0 <= j < i ==> is_whitespace(#[trigger] s[j]),
    ensures
        trim_start(s) == trim_start(s.subrange(i, s.len() as int)),
    decreases i,
{
    if i > 0 {
        assert(s.drop_first().subrange(i - 1, s.drop_first().len() as int) =~= s.subrange(
            i,
            s.len() as int,
        ));
        lemma_trim_start_skip(s.drop_first(), i - 1);
    } else {
        assert(s.subrange(0, s.len() as int) =~= s);
    }
}

proof fn lemma_trim_end_skip(s: Seq<char>, k: int)
    requires
        0 <= k <= s.len(),
        forall|j: int| k <= j < s.len() ==> is_whitespace(#[trigger] s[j]),
    ensures
        trim_end(s) == trim_end(s.subrange(0, k)),
    decreases s.len() - k,
{
    if k < s.len() {
        assert(s.drop_last().subrange(0, k) =~= s.subrange(0, k));
        lemma_trim_end_skip(s.drop_last(), k);
    } else {
        assert(s.subrange(0, k) =~= s);
    }
}

/// The characters `v[from..to]` without leading and trailing whitespace.
pub fn trimmed(v: &Vec<char>, from: usize, to: usize) -> (r: Vec<char>)
    requires
        from <= to <= v.len(),
    ensures
        r@ == trim(v@.subrange(from as int, to as int)),
{
    let ghost s = v@.subrange(from as int, to as int);
    let mut a = from;
    while a < to && is_whitespace_exec(v[a])
        invariant
            from <= a <= to <= v.len(),
            s == v@.subrange(from as int, to as int),
            forall|j: int| from <= j < a ==> is_whitespace(#[trigger] v@[j]),
        decreases to - a,
    {
        a = a + 1;
    }
    proof {
        assert forall|j: int| 0 <= j < a - from implies is_whitespace(#[trigger] s[j]) by {
            assert(s[j] == v@[from + j]);
        }
        lemma_trim_start_skip(s, a - from);
        assert(s.subrange(a - from, s.len() as int) =~= v@.subrange(a as int, to as int));
        if a < to {
            assert(v@.subrange(a as int, to as int)[0] == v@[a as int]);
        }
    }
    let ghost s2 = v@.subrange(a as int, to as int);
    assert(trim_start(s) == s2);
    let mut b = to;
    while b > a && is_whitespace_exec(v[b - 1])
        invariant
            from <= a <= b <= to <= v.len(),
            s2 == v@.subrange(a as int, to as int),
            forall|j: int| b <= j < to ==> is_whitespace(#[trigger] v@[j]),
        decreases b - a,
    {
        b = b - 1;
    }
    proof {
        assert forall|j: int| b - a <= j < s2.len() implies is_whitespace(#[trigger] s2[j]) by {
            assert(s2[j] == v@[a + j]);
        }
        lemma_trim_end_skip(s2, b - a);
        assert(s2.subrange(0, b - a) =~= v@.subrange(a as int, b as int));
        if b > a {
            assert(v@.subrange(a as int, b as int).last() == v@[b - 1]);
        }
    }
    sub_chars(v, a, b)
}

// ---------------------------------------------------------------------------
// Decimal rendering of integers, as `Display` writes them
// ---------------------------------------------------------------------------

/// The ASCII digit of `d`.
pub open spec fn digit_char(d: nat) -> char {
    if d == 0 {
        '0'
    } else if d == 1 {
        '1'
    } else if d == 2 {
        '2'
    } else if d == 3 {
        '3'
    } else if d == 4 {
        '4'
    } else if d == 5 {
        '5'
    } else if d == 6 {
        '6'
    } else if d == 7 {
        '7'
    } else if d == 8 {
        '8'
    } else {
        '9'
    }
}

/// The decimal digits of `n`, without leading zeros (`"0"` for zero).
pub open spec fn decimal(n: nat) -> Seq<char>
    decreases n,
{
    if n < 10 {
        seq![digit_char(n)]
    } else {
        decimal(n / 10).push(digit_char(n % 10))
    }
}

/// The decimal rendering of `n`, with a `-` before a negative number.
pub open spec fn decimal_int(n: int) -> Seq<char> {
    if n < 0 {
        seq!['-'] + decimal((-n) as nat)
    } else {
        decimal(n as nat)
    }
}

fn digit_exec(d: u64) -> (c: char)
    requires
        d < 10,
    ensures
        c == digit_char(d as nat),
{
    if d == 0 {
        '0'
    } else if d == 1 {
        '1'
    } else if d == 2 {
        '2'
    } else if d == 3 {
        '3'
    } else if d == 4 {
        '4'
    } else if d == 5 {
        '5'
    } else if d == 6 {
        '6'
    } else if d == 7 {
        '7'
    } else if d == 8 {
        '8'
    } else {
        '9'
    }
}

/// The digits of `n`, most significant first.
fn decimal_chars(n: u64) -> (v: Vec<char>)
    ensures
        v@ == decimal(n as nat),
    decreases n,
{
    if n < 10 {
        let mut v: Vec<char> = Vec::new();
        v.push(digit_exec(n));
        v
    } else {
        let mut v = decimal_chars(n / 10);
        v.push(digit_exec(n % 10));
        v
    }
}

/// The decimal rendering of an unsigned integer, as `u64::to_string` gives it.
pub fn decimal_u64(n: u64) -> (s: String)
    ensures
        s@ == decimal(n as nat),
{
    let v = decimal_chars(n);
    string_of(v.as_slice())
}

/// The decimal rendering of a signed integer, as `i64::to_string` gives it.
pub fn decimal_i64(n: i64) -> (s: String)
    ensures
        s@ == decimal_int(n as int),
{
    if n < 0 {
        let m: u64 = if n == i64::MIN {
            9223372036854775808u64
        } else {
            (-n) as u64
        };
        let mut v: Vec<char> = Vec::new();
        v.push('-');
        let mut d = decimal_chars(m);
        v.append(&mut d);
        string_of(v.as_slice())
    } else {
        decimal_u64(n as u64)
    }
}

// ---------------------------------------------------------------------------
// Simple predicates and transformations
// ---------------------------------------------------------------------------

/// Whether `c` occurs in `v`.
pub fn contains_char(v: &Vec<char>, c: char) -> (r: bool)
    ensures
        r == v@.contains(c),
{
    let mut i: usize = 0;
    while i < v.len()
        invariant
            i <= v.len(),
            forall|j: int| 0 <= j < i ==> v@[j] != c,
        decreases v.len() - i,
    {
        if v[i] == c {
            assert(v@[i as int] == c);
            return true;
        }
        i = i + 1;
    }
    false
}

/// The lower-case form of an ASCII capital letter; other characters unchanged.
pub open spec fn ascii_lower(c: char) -> char {
    if 'A' <= c <= 'Z' {
        (((c as u32) + 32) as u8) as char
    } else {
        c
    }
}

/// The upper-case form of an ASCII small letter; other characters unchanged.
pub open spec fn ascii_upper(c: char) -> char {
    if 'a' <= c <= 'z' {
        (((c as u32) - 32) as u8) as char
    } else {
        c
    }
}

/// `s` with its ASCII small letters in upper case: what `str::to_uppercase`
/// gives for a text of ASCII characters.
pub open spec fn ascii_uppercase(s: Seq<char>) -> Seq<char> {
    s.map_values(|c: char| ascii_upper(c))
}

/// Upper-casing a text of small ASCII letters and lower-casing it again
/// gives it back.
pub proof fn lemma_upper_then_lower(s: Seq<char>)
    requires
        forall|i: int| 0 <= i < s.len() ==> 'a' <= #[trigger] s[i] <= 'z',
    ensures
        lower_equals(ascii_uppercase(s), s),
{
    assert forall|i: int| 0 <= i < s.len() implies ascii_lower(#[trigger] ascii_uppercase(s)[i]) == s[i] by {
        let c = s[i];
        assert('a' <= c <= 'z');
        assert(97 <= (c as u32) <= 122);
    }
}

/// `s`, lower-cased by `str::to_lowercase`, equals `keyword`, where `keyword`
/// is made of lower-case ASCII letters other than `k`. For such a keyword the
/// Unicode lower-casing of `s` can only equal it when each character of `s`
/// is the keyword's letter or its ASCII capital: no other character lowers to
/// one of those letters alone (the Kelvin sign lowers to `k`, which is why
/// `k` is left out).
pub open spec fn lower_equals(s: Seq<char>, keyword: Seq<char>) -> bool {
    s.len() == keyword.len() && forall|i: int| 0 <= i < s.len() ==> ascii_lower(#[trigger] s[i])
        == keyword[i]
}

fn ascii_lower_exec(c: char) -> (r: char)
    ensures
        r == ascii_lower(c),
{
    if 'A' <= c && c <= 'Z' {
        (((c as u32) + 32) as u8) as char
    } else {
        c
    }
}

/// Computes `lower_equals`.
pub fn lower_equals_exec(s: &Vec<char>, keyword: &str) -> (r: bool)
    ensures
        r == lower_equals(s@, keyword@),
{
    let k = chars_of(keyword);
    if s.len() != k.len() {
        return false;
    }
    let mut i: usize = 0;
    while i < s.len()
        invariant
            k@ == keyword@,
            s.len() == k.len(),
            i <= s.len(),
            forall|j: int| 0 <= j < i ==> ascii_lower(#[trigger] s@[j]) == k@[j],
        decreases s.len() - i,
    {
        if ascii_lower_exec(s[i]) != k[i] {
            return false;
        }
        i = i + 1;
    }
    true
}

/// `s` with every `from` replaced by the characters of `to`.
pub open spec fn replace_char(s: Seq<char>, from: char, to: Seq<char>) -> Seq<char>
    decreases s.len(),
{
    if s.len() == 0 {
        Seq::empty()
    } else {
        replace_char(s.drop_last(), from, to) + if s.last() == from {
            to
        } else {
            seq![s.last()]
        }
    }
}

/// Computes `str::replace(s, from, to)` for a single character `from`.
pub fn replace_char_exec(s: &str, from: char, to: &str) -> (r: String)
    ensures
        r@ == replace_char(s@, from, to@),
{
    let v = chars_of(s);
    let t = chars_of(to);
    let mut out: Vec<char> = Vec::new();
    let mut i: usize = 0;
    while i < v.len()
        invariant
            v@ == s@,
            t@ == to@,
            i <= v.len(),
            out@ == replace_char(v@.subrange(0, i as int), from, to@),
        decreases v.len() - i,
    {
        proof {
            assert(v@.subrange(0, i + 1).drop_last() =~= v@.subrange(0, i as int));
        }
        if v[i] == from {
            let mut w = t.clone();
            out.append(&mut w);
        } else {
            out.push(v[i]);
        }
        i = i + 1;
    }
    assert(v@.subrange(0, v.len() as int) =~= v@);
    string_of(out.as_slice())
}

/// The first `n` characters of `s` (all of them when it is shorter), as
/// `s.chars().take(n).collect()` gives them.
pub open spec fn take_chars(s: Seq<char>, n: nat) -> Seq<char> {
    if s.len() <= n {
        s
    } else {
        s.take(n as int)
    }
}

/// Computes `take_chars`.
pub fn take_chars_exec(s: &str, n: usize) -> (r: String)
    ensures
        r@ == take_chars(s@, n as nat),
{
    let v = chars_of(s);
    let m = if v.len() <= n {
        v.len()
    } else {
        n
    };
    assert(v@.subrange(0, v.len() as int) =~= v@);
    substring(&v, 0, m)
}

/// The first line of `s`, as `s.lines().next().unwrap_or("")` gives it: the
/// text before the first `\n`, without a `\r` just before that `\n`.
pub open spec fn first_line(s: Seq<char>) -> Seq<char> {
    if s.contains('\n') {
        let i = choose|i: int| 0 <= i < s.len() && s[i] == '\n' && forall|j: int|
            0 <= j < i ==> s[j] != '\n';
        if i > 0 && s[i - 1] == '\r' {
            s.take(i - 1)
        } else {
            s.take(i)
        }
    } else {
        s
    }
}

/// Computes `first_line`.
pub fn first_line_exec(s: &str) -> (r: String)
    ensures
        r@ == first_line(s@),
{
    let v = chars_of(s);
    let mut i: usize = 0;
    while i < v.len() && v[i] != '\n'
        invariant
            v@ == s@,
            i <= v.len(),
            forall|j: int| 0 <= j < i ==> v@[j] != '\n',
        decreases v.len() - i,
    {
        i = i + 1;
    }
    if i == v.len() {
        assert(!s@.contains('\n'));
        assert(v@.subrange(0, v.len() as int) =~= v@);
        substring(&v, 0, v.len())
    } else {
        proof {
            assert(s@.contains('\n')) by {
                assert(s@[i as int] == '\n');
            }
            let k = choose|k: int| 0 <= k < s@.len() && s@[k] == '\n' && forall|j: int|
                0 <= j < k ==> s@[j] != '\n';
            assert(k == i) by {
                if k < i {
                    assert(v@[k] != '\n');
                }
                if k > i {
                    assert(s@[i as int] != '\n');
                }
            }
        }
        if i > 0 && v[i - 1] == '\r' {
            substring(&v, 0, i - 1)
        } else {
            substring(&v, 0, i)
        }
    }
}

/// Whether `s` begins with `prefix`.
pub fn starts_with_exec(s: &Vec<char>, prefix: &str) -> (r: bool)
    ensures
        r == (prefix@.len() <= s@.len() && s@.take(prefix@.len() as int) == prefix@),
{
    let p = chars_of(prefix);
    let r = starts_at_exec(s, 0, &p);
    proof {
        if p@.len() <= s@.len() {
            assert(s@.subrange(0, p@.len() as int) =~= s@.take(p@.len() as int));
        }
    }
    r
}

// ---------------------------------------------------------------------------
// Splitting on a separator, as `str::split(char)` does
// ---------------------------------------------------------------------------

/// The pieces of `s` between the occurrences of `sep`, empty pieces included;
/// there is always at least one piece.
pub open spec fn split_char(s: Seq<char>, sep: char) -> Seq<Seq<char>>
    decreases s.len(),
{
    if s.len() == 0 {
        seq![Seq::empty()]
    } else {
        let prev = split_char(s.drop_last(), sep);
        if s.last() == sep {
            prev.push(Seq::empty())
        } else {
            prev.update(prev.len() - 1, prev.last().push(s.last()))
        }
    }
}

proof fn lemma_split_nonempty(s: Seq<char>, sep: char)
    ensures
        split_char(s, sep).len() >= 1,
    decreases s.len(),
{
    if s.len() > 0 {
        lemma_split_nonempty(s.drop_last(), sep);
    }
}

/// Splitting `s`, the separator and `t` gives the pieces of `s` followed by
/// the pieces of `t`.
pub proof fn lemma_split_concat(s: Seq<char>, t: Seq<char>, sep: char)
    ensures
        split_char(s + seq![sep] + t, sep) == split_char(s, sep) + split_char(t, sep),
    decreases t.len(),
{
    let w = s + seq![sep] + t;
    if t.len() == 0 {
        assert(w.drop_last() =~= s);
        assert(split_char(t, sep) =~= seq![Seq::<char>::empty()]);
        assert(split_char(w, sep) =~= split_char(s, sep) + split_char(t, sep));
    } else {
        assert(w.drop_last() =~= s + seq![sep] + t.drop_last());
        lemma_split_concat(s, t.drop_last(), sep);
        lemma_split_nonempty(t.drop_last(), sep);
        lemma_split_nonempty(s, sep);
        let a = split_char(s, sep);
        let b = split_char(t.drop_last(), sep);
        assert(w.last() == t.last());
        if t.last() == sep {
            assert((a + b).push(Seq::<char>::empty()) =~= a + b.push(Seq::<char>::empty()));
        } else {
            assert((a + b).update((a + b).len() - 1, (a + b).last().push(t.last())) =~= a + b.update(
                b.len() - 1,
                b.last().push(t.last()),
            ));
        }
    }
}

/// A text without the separator is one piece.
pub proof fn lemma_split_single(s: Seq<char>, sep: char)
    requires
        !s.contains(sep),
    ensures
        split_char(s, sep) == seq![s],
    decreases s.len(),
{
    if s.len() > 0 {
        assert(!s.drop_last().contains(sep)) by {
            if s.drop_last().contains(sep) {
                let i = choose|i: int| 0 <= i < s.drop_last().len() && s.drop_last()[i] == sep;
                assert(s[i] == sep);
            }
        }
        lemma_split_single(s.drop_last(), sep);
        assert(s[s.len() - 1] != sep);
        assert(s.drop_last().push(s.last()) =~= s);
        assert(split_char(s, sep) =~= seq![s]);
    } else {
        assert(s =~= Seq::<char>::empty());
    }
}

/// The pieces of `s` split on `sep`.
pub fn split_char_exec(s: &str, sep: char) -> (r: Vec<String>)
    ensures
        r@.len() == split_char(s@, sep).len(),
        forall|i: int| 0 <= i < r@.len() ==> #[trigger] r@[i]@ == split_char(s@, sep)[i],
{
    let v = chars_of(s);
    let mut done: Vec<String> = Vec::new();
    let mut cur: Vec<char> = Vec::new();
    let mut i: usize = 0;
    while i < v.len()
        invariant
            v@ == s@,
            i <= v.len(),
            done@.len() + 1 == split_char(v@.subrange(0, i as int), sep).len(),
            forall|j: int|
                0 <= j < done@.len() ==> #[trigger] done@[j]@ == split_char(
                    v@.subrange(0, i as int),
                    sep,
                )[j],
            cur@ == split_char(v@.subrange(0, i as int), sep).last(),
        decreases v.len() - i,
    {
        proof {
            assert(v@.subrange(0, i + 1).drop_last() =~= v@.subrange(0, i as int));
            lemma_split_nonempty(v@.subrange(0, i as int), sep);
        }
        if v[i] == sep {
            let piece = string_of(cur.as_slice());
            done.push(piece);
            cur = Vec::new();
        } else {
            cur.push(v[i]);
        }
        i = i + 1;
    }
    assert(v@.subrange(0, v.len() as int) =~= v@);
    let last = string_of(cur.as_slice());
    done.push(last);
    done
}

// ---------------------------------------------------------------------------
// Parsing an unsigned 16-bit integer, as `u16::from_str` does
// ---------------------------------------------------------------------------

/// Whether `c` is an ASCII decimal digit.
pub open spec fn is_digit(c: char) -> bool {
    '0' <= c <= '9'
}

/// The value of the digits `d` (all ASCII digits), most significant first.
pub open spec fn digits_value(d: Seq<char>) -> nat
    decreases d.len(),
{
    if d.len() == 0 {
        0
    } else {
        digits_value(d.drop_last()) * 10 + ((d.last() as u32) - ('0' as u32)) as nat
    }
}

/// `s` without one leading `+`.
pub open spec fn unsigned_digits(s: Seq<char>) -> Seq<char> {
    if s.len() > 0 && s[0] == '+' {
        s.drop_first()
    } else {
        s
    }
}

/// What `s.parse::<u16>()` gives: an optional `+`, then at least one ASCII
/// digit and nothing else, with a value that fits in 16 bits.
pub open spec fn parse_u16(s: Seq<char>) -> Option<u16> {
    let d = unsigned_digits(s);
    if d.len() > 0 && (forall|i: int| 0 <= i < d.len() ==> is_digit(#[trigger] d[i]))
        && digits_value(d) <= 65535 {
        Some(digits_value(d) as u16)
    } else {
        None
    }
}

proof fn lemma_digits_value_grows(d: Seq<char>, k: int)
    requires
        0 <= k <= d.len(),
        forall|i: int| 0 <= i < d.len() ==> is_digit(#[trigger] d[i]),
    ensures
        digits_value(d.subrange(0, k)) <= digits_value(d),
    decreases d.len() - k,
{
    if k < d.len() {
        lemma_digits_value_grows(d.drop_last(), k);
        assert(d.drop_last().subrange(0, k) =~= d.subrange(0, k));
        assert(is_digit(d.last()));
    } else {
        assert(d.subrange(0, k) =~= d);
    }
}

proof fn lemma_digit_char_value(d: nat)
    requires
        d < 10,
    ensures
        is_digit(digit_char(d)),
        ((digit_char(d) as u32) - ('0' as u32)) as nat == d,
{
}

/// The decimal digits of `n` are ASCII digits, at least one, whose value is
/// `n`.
pub proof fn lemma_decimal_digits(n: nat)
    ensures
        decimal(n).len() >= 1,
        forall|i: int| 0 <= i < decimal(n).len() ==> is_digit(#[trigger] decimal(n)[i]),
        digits_value(decimal(n)) == n,
    decreases n,
{
    if n < 10 {
        lemma_digit_char_value(n);
        assert(seq![digit_char(n)].drop_last() =~= Seq::<char>::empty());
        assert(digits_value(seq![digit_char(n)]) == digits_value(Seq::<char>::empty()) * 10 + ((
        digit_char(n) as u32) - ('0' as u32)) as nat);
    } else {
        lemma_decimal_digits(n / 10);
        let d = n % 10;
        lemma_digit_char_value(d);
        assert(decimal(n).drop_last() =~= decimal(n / 10));
        assert(decimal(n).last() == digit_char(d));
        assert(digits_value(decimal(n)) == digits_value(decimal(n / 10)) * 10 + ((digit_char(
            d,
        ) as u32) - ('0' as u32)) as nat);
        assert((n / 10) * 10 + d == n);
    }
}

/// `parse::<u16>` reads the decimal digits of a `u16` back as that number.
pub proof fn lemma_parse_u16_decimal(n: u16)
    ensures
        parse_u16(decimal(n as nat)) == Some(n),
{
    lemma_decimal_digits(n as nat);
    let d = decimal(n as nat);
    assert(is_digit(d[0]));
    assert(unsigned_digits(d) == d);
}

/// Computes `parse_u16`.
pub fn parse_u16_exec(s: &str) -> (r: Option<u16>)
    ensures
        r == parse_u16(s@),
{
    let v = chars_of(s);
    let start: usize = if v.len() > 0 && v[0] == '+' {
        1
    } else {
        0
    };
    let ghost d = unsigned_digits(s@);
    assert(d =~= v@.subrange(start as int, v.len() as int));
    if start == v.len() {
        return None;
    }
    let mut value: u32 = 0;
    let mut i = start;
    while i < v.len()
        invariant
            v@ == s@,
            start <= i <= v.len(),
            d == v@.subrange(start as int, v.len() as int),
            d == unsigned_digits(s@),
            value <= 65535,
            value == digits_value(v@.subrange(start as int, i as int)),
            forall|j: int| start <= j < i ==> is_digit(#[trigger] v@[j]),
        decreases v.len() - i,
    {
        let c = v[i];
        proof {
            assert(v@.subrange(start as int, i + 1).drop_last() =~= v@.subrange(
                start as int,
                i as int,
            ));
        }
        if !('0' <= c && c <= '9') {
            assert(d[i - start] == c);
            assert(!is_digit(d[i - start]));
            assert(!(forall|j: int| 0 <= j < d.len() ==> is_digit(#[trigger] d[j])));
            assert(parse_u16(s@) is None);
            return None;
        }
        let next: u32 = value * 10 + ((c as u32) - ('0' as u32));
        assert(v@.subrange(start as int, i + 1).last() == c);
        assert(digits_value(v@.subrange(start as int, i + 1)) == next);
        if next > 65535 {
            proof {
                if forall|j: int| 0 <= j < d.len() ==> is_digit(#[trigger] d[j]) {
                    lemma_digits_value_grows(d, i + 1 - start);
                    assert(d.subrange(0, i + 1 - start) =~= v@.subrange(start as int, i + 1));
                }
            }
            assert(parse_u16(s@) is None);
            return None;
        }
        value = next;
        i = i + 1;
    }
    assert(v@.subrange(start as int, v.len() as int) == d);
    Some(value as u16)
}

} // verus!
