//! Collection of news from RSS feeds and web pages.
//!
//! Fetching a feed or a page is the application's work; this module reads
//! the fetched text. The patterns read are those of the feed and page
//! grammar the collectors accept:
//!
//! * an RSS item is `<item>(.*?)</item>`, and in it the title
//!   `<title><![CDATA[(.*?)]]></title>|<title>(.*?)</title>`, the link
//!   `<link>(.*?)</link>`, the description
//!   `<description><![CDATA[(.*?)]]></description>|<description>(.*?)</description>`
//!   (only the first group is kept) and the date `<pubDate>(.*?)</pubDate>`;
//! * a page has the title `<title>(.*?)</title>` and the links
//!   `<a[^>]+href=["']([^"']+)["'][^>]*>([^<]*)</a>`;
//!
//! each with leftmost-first matching, lazy groups stopping at the first
//! closing text, `.` not matching a newline, and successive matches not
//! overlapping.

use vstd::prelude::*;
use crate::text::{
    byte_len, byte_len_exceeds, chars_of, concat, first_alt_capture,
    first_alt_capture_exec, first_capture, lemma_first_capture_found, lower_equals, lower_equals_exec, owned, starts_at, starts_at_exec, starts_with_exec, string_of, sub_chars, substring, take_chars,
    take_chars_exec, trim, trimmed,
};

verus! {

/// Errors of collection.
#[derive(Debug)]
pub enum CollectorError {
    /// The request for the source failed, described by the text.
    Request(String),
    /// The fetched text could not be read.
    Parse(String),
    /// The source kind has no collector.
    UnsupportedSource,
}

/// The text of a collection error.
pub open spec fn collector_error_text(e: CollectorError) -> Seq<char> {
    match e {
        CollectorError::Request(d) => "请求错误: "@ + d@,
        CollectorError::Parse(d) => "解析错误: "@ + d@,
        CollectorError::UnsupportedSource => "不支持的源类型"@,
    }
}

impl CollectorError {
    /// The displayed text of the error.
    pub fn to_string(&self) -> (r: String)
        ensures
            r@ == collector_error_text(*self),
    {
        match self {
            CollectorError::Request(d) => concat("请求错误: ", d.as_str()),
            CollectorError::Parse(d) => concat("解析错误: ", d.as_str()),
            CollectorError::UnsupportedSource => owned("不支持的源类型"),
        }
    }
}

/// Where and what to collect.
pub struct SourceConfig {
    pub url: String,
    pub source_type: String,
}

/// One collected item.
pub struct RawData {
    pub title: String,
    pub content: String,
    pub url: String,
    pub published_at: String,
    pub category: String,
}

/// A collected item as values.
pub struct RawDataView {
    pub title: Seq<char>,
    pub content: Seq<char>,
    pub url: Seq<char>,
    pub published_at: Seq<char>,
    pub category: Seq<char>,
}

impl View for RawData {
    type V = RawDataView;

    open spec fn view(&self) -> RawDataView {
        RawDataView {
            title: self.title@,
            content: self.content@,
            url: self.url@,
            published_at: self.published_at@,
            category: self.category@,
        }
    }
}

/// The views of collected items.
pub open spec fn raw_views(v: Seq<RawData>) -> Seq<RawDataView> {
    v.map_values(|r: RawData| r@)
}

// ---------------------------------------------------------------------------
// RSS
// ---------------------------------------------------------------------------

/// The group of a capture in `t`, empty when there is none.
pub open spec fn group_text(t: Seq<char>, c: Option<(bool, int, int, int)>) -> Seq<char> {
    match c {
        Some(c) => t.subrange(c.1, c.2),
        None => Seq::empty(),
    }
}

/// The successive non-overlapping items `<item>(.*?)</item>` of `t` found
/// from `s` on, as the ranges of their contents.
pub open spec fn rss_items(t: Seq<char>, s: int) -> Seq<(int, int)>
    decreases t.len() - s,
{
    match first_capture(t, s, "<item>"@, "</item>"@) {
        Some(c) => if c.3 <= s || c.3 > t.len() {
            Seq::empty()
        } else {
            seq![(c.1, c.2)] + rss_items(t, c.3)
        },
        None => Seq::empty(),
    }
}

/// The title of an item: the CDATA group or the plain group, empty when
/// there is no title.
pub open spec fn rss_title(item: Seq<char>) -> Seq<char> {
    group_text(
        item,
        first_alt_capture(
            item,
            0,
            "<title><![CDATA["@,
            "]]></title>"@,
            "<title>"@,
            "</title>"@,
        ),
    )
}

/// The link of an item, empty when there is none.
pub open spec fn rss_link(item: Seq<char>) -> Seq<char> {
    group_text(item, first_capture(item, 0, "<link>"@, "</link>"@))
}

/// The description of an item: the text of a CDATA description; empty when
/// the first description is plain or there is none.
pub open spec fn rss_description(item: Seq<char>) -> Seq<char> {
    match first_alt_capture(
        item,
        0,
        "<description><![CDATA["@,
        "]]></description>"@,
        "<description>"@,
        "</description>"@,
    ) {
        Some(c) => if c.0 {
            item.subrange(c.1, c.2)
        } else {
            Seq::empty()
        },
        None => Seq::empty(),
    }
}

/// The publication date of an item, `now` when it has none.
pub open spec fn rss_date(item: Seq<char>, now: Seq<char>) -> Seq<char> {
    match first_capture(item, 0, "<pubDate>"@, "</pubDate>"@) {
        Some(c) => item.subrange(c.1, c.2),
        None => now,
    }
}

/// An item is kept when it has a title and a link.
pub open spec fn rss_keeps(item: Seq<char>) -> bool {
    rss_title(item).len() > 0 && rss_link(item).len() > 0
}

/// The record made from an item.
pub open spec fn rss_record(item: Seq<char>, category: Seq<char>, now: Seq<char>) -> RawDataView {
    RawDataView {
        title: rss_title(item),
        content: rss_description(item),
        url: rss_link(item),
        published_at: rss_date(item, now),
        category: category,
    }
}

/// The records of the kept items among `items`, in order.
pub open spec fn rss_records(
    t: Seq<char>,
    items: Seq<(int, int)>,
    category: Seq<char>,
    now: Seq<char>,
) -> Seq<RawDataView>
    decreases items.len(),
{
    if items.len() == 0 {
        Seq::empty()
    } else {
        let prev = rss_records(t, items.drop_last(), category, now);
        let item = t.subrange(items.last().0, items.last().1);
        if rss_keeps(item) {
            prev.push(rss_record(item, category, now))
        } else {
            prev
        }
    }
}

/// The items of a feed: every kept item of the text, in order, each with the
/// given category; `now` stands for the date of an item without one.
pub open spec fn rss_feed(xml: Seq<char>, category: Seq<char>, now: Seq<char>) -> Seq<RawDataView> {
    rss_records(xml, rss_items(xml, 0), category, now)
}

/// The group of a capture found in `t`, as a string.
fn group_string(t: &Vec<char>, c: Option<(bool, usize, usize, usize)>) -> (r: String)
    requires
        c matches Some(x) ==> x.1 <= x.2 <= t.len(),
    ensures
        r@ == group_text(t@, match c {
            Some(x) => Some((x.0, x.1 as int, x.2 as int, x.3 as int)),
            None => None,
        }),
{
    match c {
        Some(x) => substring(t, x.1, x.2),
        None => String::new(),
    }
}

/// Literal patterns, as characters.
struct Patterns {
    item_open: Vec<char>,
    item_close: Vec<char>,
    title_cdata_open: Vec<char>,
    title_cdata_close: Vec<char>,
    title_open: Vec<char>,
    title_close: Vec<char>,
    link_open: Vec<char>,
    link_close: Vec<char>,
    desc_cdata_open: Vec<char>,
    desc_cdata_close: Vec<char>,
    desc_open: Vec<char>,
    desc_close: Vec<char>,
    date_open: Vec<char>,
    date_close: Vec<char>,
}

impl Patterns {
    spec fn wf(&self) -> bool {
        &&& self.item_open@ == "<item>"@
        &&& self.item_close@ == "</item>"@
        &&& self.title_cdata_open@ == "<title><![CDATA["@
        &&& self.title_cdata_close@ == "]]></title>"@
        &&& self.title_open@ == "<title>"@
        &&& self.title_close@ == "</title>"@
        &&& self.link_open@ == "<link>"@
        &&& self.link_close@ == "</link>"@
        &&& self.desc_cdata_open@ == "<description><![CDATA["@
        &&& self.desc_cdata_close@ == "]]></description>"@
        &&& self.desc_open@ == "<description>"@
        &&& self.desc_close@ == "</description>"@
        &&& self.date_open@ == "<pubDate>"@
        &&& self.date_close@ == "</pubDate>"@
    }

    fn new() -> (r: Self)
        ensures
            r.wf(),
    {
        Patterns {
            item_open: chars_of("<item>"),
            item_close: chars_of("</item>"),
            title_cdata_open: chars_of("<title><![CDATA["),
            title_cdata_close: chars_of("]]></title>"),
            title_open: chars_of("<title>"),
            title_close: chars_of("</title>"),
            link_open: chars_of("<link>"),
            link_close: chars_of("</link>"),
            desc_cdata_open: chars_of("<description><![CDATA["),
            desc_cdata_close: chars_of("]]></description>"),
            desc_open: chars_of("<description>"),
            desc_close: chars_of("</description>"),
            date_open: chars_of("<pubDate>"),
            date_close: chars_of("</pubDate>"),
        }
    }
}

/// Reads one item; `None` when it is not kept.
fn rss_item_record(item: &Vec<char>, pats: &Patterns, category: &str, now: &str) -> (r: Option<
    RawData,
>)
    requires
        pats.wf(),
    ensures
        match r {
            Some(d) => rss_keeps(item@) && d@ == rss_record(item@, category@, now@),
            None => !rss_keeps(item@),
        },
{
    let tc = first_alt_capture_exec(
        item,
        0,
        &pats.title_cdata_open,
        &pats.title_cdata_close,
        &pats.title_open,
        &pats.title_close,
    );
    let title = group_string(item, tc);
    let lc = first_alt_capture_exec(
        item,
        0,
        &pats.link_open,
        &pats.link_close,
        &pats.link_open,
        &pats.link_close,
    );
    let url = group_string(item, lc);
    if title.as_str().is_empty() || url.as_str().is_empty() {
        return None;
    }
    let dc = first_alt_capture_exec(
        item,
        0,
        &pats.desc_cdata_open,
        &pats.desc_cdata_close,
        &pats.desc_open,
        &pats.desc_close,
    );
    let content = match dc {
        Some(c) => if c.0 {
            substring(item, c.1, c.2)
        } else {
            String::new()
        },
        None => String::new(),
    };
    let pc = first_alt_capture_exec(
        item,
        0,
        &pats.date_open,
        &pats.date_close,
        &pats.date_open,
        &pats.date_close,
    );
    let published_at = match pc {
        Some(c) => substring(item, c.1, c.2),
        None => owned(now),
    };
    Some(RawData { title, content, url, published_at, category: owned(category) })
}

/// Reads the items of an RSS feed; `now` is the date given to an item
/// without one.
fn read_rss(xml: &str, category: &str, now: &str) -> (r: Vec<RawData>)
    ensures
        raw_views(r@) == rss_feed(xml@, category@, now@),
{
    let t = chars_of(xml);
    let pats = Patterns::new();
    let mut out: Vec<RawData> = Vec::new();
    let mut pos: usize = 0;
    let ghost mut seen: Seq<(int, int)> = Seq::empty();
    loop
        invariant
            t@ == xml@,
            pats.wf(),
            pos <= t.len(),
            rss_items(t@, 0) == seen + rss_items(t@, pos as int),
            raw_views(out@) == rss_records(t@, seen, category@, now@),
            forall|k: int| 0 <= k < seen.len() ==> 0 <= #[trigger] seen[k].0 <= seen[k].1 <= t@.len(),
        ensures
            raw_views(out@) == rss_feed(xml@, category@, now@),
        decreases t.len() - pos,
    {
        let c = first_alt_capture_exec(
            &t,
            pos,
            &pats.item_open,
            &pats.item_close,
            &pats.item_open,
            &pats.item_close,
        );
        match c {
            None => {
                assert(rss_items(t@, pos as int) =~= Seq::<(int, int)>::empty());
                assert(seen + Seq::<(int, int)>::empty() =~= seen);
                break ;
            },
            Some(x) => {
                if x.3 <= pos {
                    assert(rss_items(t@, pos as int) =~= Seq::<(int, int)>::empty());
                    assert(seen + Seq::<(int, int)>::empty() =~= seen);
                    break ;
                }
                let item = sub_chars(&t, x.1, x.2);
                let rec = rss_item_record(&item, &pats, category, now);
                proof {
                    let ns = seen.push((x.1 as int, x.2 as int));
                    assert(ns.drop_last() =~= seen);
                    assert(seen + rss_items(t@, pos as int) =~= ns + rss_items(t@, x.3 as int));
                    seen = ns;
                }
                match rec {
                    Some(d) => {
                        out.push(d);
                    },
                    None => {},
                }
                proof {
                    assert(raw_views(out@) =~= rss_records(t@, seen, category@, now@));
                }
                pos = x.3;
            },
        }
    }
    out
}


// ---------------------------------------------------------------------------
// Web pages
// ---------------------------------------------------------------------------

/// The first index at or after `i` holding `c`, or the length of `t`.
pub open spec fn next_char(t: Seq<char>, i: int, c: char) -> int
    decreases t.len() - i,
{
    if i < 0 || i >= t.len() {
        t.len() as int
    } else if t[i] == c {
        i
    } else {
        next_char(t, i + 1, c)
    }
}

/// A quote character, `"` or `'`.
pub open spec fn is_quote(c: char) -> bool {
    c == '"' || c == '\''
}

/// The first index at or after `i` holding a quote, or the length of `t`.
pub open spec fn next_quote(t: Seq<char>, i: int) -> int
    decreases t.len() - i,
{
    if i < 0 || i >= t.len() {
        t.len() as int
    } else if is_quote(t[i]) {
        i
    } else {
        next_quote(t, i + 1)
    }
}

/// The rest of a link after `href=` found at `h`:
/// `["']([^"']+)["'][^>]*>([^<]*)</a>`, giving the ranges of the address and
/// of the link text and the end of the match. Each class run is the longest
/// one, as nothing shorter can be followed by what comes next.
pub open spec fn link_rest(t: Seq<char>, h: int) -> Option<(int, int, int, int, int)> {
    let a = h + 5;
    if 0 <= a < t.len() && is_quote(t[a]) {
        let u0 = a + 1;
        let u1 = next_quote(t, u0);
        if u0 < u1 < t.len() {
            let g = next_char(t, u1 + 1, '>');
            if g < t.len() {
                let x0 = g + 1;
                let x1 = next_char(t, x0, '<');
                if starts_at(t, x1, "</a>"@) {
                    Some((u0, u1, x0, x1, x1 + 4))
                } else {
                    None
                }
            } else {
                None
            }
        } else {
            None
        }
    } else {
        None
    }
}

/// The link whose `href=` is the last one at or before `h` (and after the
/// first character of `[^>]+`) for which the rest matches: the greedy
/// `[^>]+` gives back one character at a time.
pub open spec fn link_search(t: Seq<char>, p: int, h: int) -> Option<(int, int, int, int, int)>
    decreases h - p,
{
    if h < p + 3 {
        None
    } else if starts_at(t, h, "href="@) && link_rest(t, h) is Some {
        link_rest(t, h)
    } else {
        link_search(t, p, h - 1)
    }
}

/// The link starting at `p`: `<a`, then `[^>]+` up to at most the first `>`,
/// then `href=` and the rest.
pub open spec fn link_at(t: Seq<char>, p: int) -> Option<(int, int, int, int, int)> {
    if starts_at(t, p, "<a"@) {
        link_search(t, p, next_char(t, p + 2, '>'))
    } else {
        None
    }
}

/// The leftmost link at or after `s`.
pub open spec fn first_link(t: Seq<char>, s: int) -> Option<(int, int, int, int, int)>
    decreases t.len() - s,
{
    if s < 0 || s > t.len() {
        None
    } else {
        match link_at(t, s) {
            Some(l) => Some(l),
            None => if s == t.len() {
                None
            } else {
                first_link(t, s + 1)
            },
        }
    }
}

/// The successive non-overlapping links of `t` from `s` on, as the ranges
/// of their address and of their text.
pub open spec fn html_links(t: Seq<char>, s: int) -> Seq<(int, int, int, int)>
    decreases t.len() - s,
{
    match first_link(t, s) {
        Some(l) => if l.4 <= s || l.4 > t.len() {
            Seq::empty()
        } else {
            seq![(l.0, l.1, l.2, l.3)] + html_links(t, l.4)
        },
        None => Seq::empty(),
    }
}

/// A link is kept when its address begins with `http` and its trimmed text
/// is longer than five bytes.
pub open spec fn html_keeps(url: Seq<char>, text: Seq<char>) -> bool {
    &&& "http"@.len() <= url.len()
    &&& url.take("http"@.len() as int) == "http"@
    &&& byte_len(trim(text)) > 5
}

/// The record made from a kept link.
pub open spec fn html_record(url: Seq<char>, text: Seq<char>, now: Seq<char>) -> RawDataView {
    RawDataView {
        title: trim(text),
        content: Seq::empty(),
        url: url,
        published_at: now,
        category: "general"@,
    }
}

/// The records of the kept links among `links`, in order.
pub open spec fn html_records(t: Seq<char>, links: Seq<(int, int, int, int)>, now: Seq<char>) -> Seq<
    RawDataView,
>
    decreases links.len(),
{
    if links.len() == 0 {
        Seq::empty()
    } else {
        let prev = html_records(t, links.drop_last(), now);
        let l = links.last();
        let url = t.subrange(l.0, l.1);
        let text = t.subrange(l.2, l.3);
        if html_keeps(url, text) {
            prev.push(html_record(url, text, now))
        } else {
            prev
        }
    }
}

/// The title of a page, empty when it has none.
pub open spec fn page_title(t: Seq<char>) -> Seq<char> {
    group_text(t, first_capture(t, 0, "<title>"@, "</title>"@))
}

/// The items of a page: the first twenty kept links; when no link is kept
/// and the page has a title, one item for the page itself (its title, its
/// first 500 characters, its address).
pub open spec fn html_page(html: Seq<char>, base_url: Seq<char>, now: Seq<char>) -> Seq<
    RawDataView,
> {
    let recs = html_records(html, html_links(html, 0), now);
    let kept = if recs.len() > 20 {
        recs.take(20)
    } else {
        recs
    };
    if kept.len() == 0 && page_title(html).len() > 0 {
        seq![
            RawDataView {
                title: page_title(html),
                content: take_chars(html, 500),
                url: base_url,
                published_at: now,
                category: "general"@,
            },
        ]
    } else {
        kept
    }
}

/// `next_char` finds the first `c` at or after `i`.
proof fn lemma_next_char_is(t: Seq<char>, i: int, j: int, c: char)
    requires
        0 <= i <= j <= t.len(),
        forall|k: int| i <= k < j ==> t[k] != c,
        j == t.len() || t[j] == c,
    ensures
        next_char(t, i, c) == j,
    decreases j - i,
{
    if i < j {
        lemma_next_char_is(t, i + 1, j, c);
    }
}

/// `next_quote` finds the first quote at or after `i`.
proof fn lemma_next_quote_is(t: Seq<char>, i: int, j: int)
    requires
        0 <= i <= j <= t.len(),
        forall|k: int| i <= k < j ==> !is_quote(t[k]),
        j == t.len() || is_quote(t[j]),
    ensures
        next_quote(t, i) == j,
    decreases j - i,
{
    if i < j {
        lemma_next_quote_is(t, i + 1, j);
    }
}

/// Searching back from `h` finds nothing before `h0` when no `href=` stands
/// in between.
proof fn lemma_link_search_skips(t: Seq<char>, p: int, h0: int, h: int)
    requires
        p + 3 <= h0 <= h,
        forall|k: int| h0 < k <= h ==> !starts_at(t, k, "href="@),
    ensures
        link_search(t, p, h) == link_search(t, p, h0),
    decreases h - h0,
{
    if h > h0 {
        lemma_link_search_skips(t, p, h0, h - 1);
    }
}

/// The page made of a single link: `<a href=` and a quote, the address, the
/// same quote, `>`, the link text and `</a>`.
pub open spec fn one_link_page(q: char, url: Seq<char>, text: Seq<char>) -> Seq<char> {
    seq!['<', 'a', ' ', 'h', 'r', 'e', 'f', '=', q] + url + seq![q, '>'] + text + seq![
        '<',
        '/',
        'a',
        '>',
    ]
}

/// A link is read whichever quote encloses its address: a page holding one
/// link whose address begins with `http` (and holds no quote, no `>` and no
/// `href=`) and whose text (without `<`) is longer than five bytes once
/// trimmed gives exactly one item, that link, with the trimmed text as its
/// title, for `"` and for `'` alike.
pub proof fn lemma_one_link_page(
    q: char,
    url: Seq<char>,
    text: Seq<char>,
    base_url: Seq<char>,
    now: Seq<char>,
)
    requires
        q == '"' || q == '\'',
        url.len() >= 4,
        url[0] == 'h' && url[1] == 't' && url[2] == 't' && url[3] == 'p',
        forall|k: int| 0 <= k < url.len() ==> !is_quote(#[trigger] url[k]) && url[k] != '>',
        forall|k: int| !starts_at(url, k, "href="@),
        forall|k: int| 0 <= k < text.len() ==> #[trigger] text[k] != '<',
        byte_len(trim(text)) > 5,
    ensures
        html_page(one_link_page(q, url, text), base_url, now) == seq![
            RawDataView {
                title: trim(text),
                content: Seq::empty(),
                url: url,
                published_at: now,
                category: "general"@,
            },
        ],
{
    reveal_strlit("<a");
    reveal_strlit("href=");
    reveal_strlit("</a>");
    reveal_strlit("http");
    let t = one_link_page(q, url, text);
    let u = url.len() as int;
    let x = text.len() as int;
    assert(t.len() == 15 + u + x);
    assert forall|k: int| 0 <= k < u implies #[trigger] t[9 + k] == url[k] by {}
    assert forall|k: int| 0 <= k < x implies #[trigger] t[11 + u + k] == text[k] by {}
    assert(t[8] == q && t[9 + u] == q && t[10 + u] == '>');
    assert(t[11 + u + x] == '<');
    // the address ends at the closing quote, the text at `</a>`
    assert forall|k: int| 9 <= k < 9 + u implies !is_quote(#[trigger] t[k]) by {
        assert(t[k] == url[k - 9]);
    }
    lemma_next_quote_is(t, 9, 9 + u);
    lemma_next_char_is(t, 10 + u, 10 + u, '>');
    assert forall|k: int| 11 + u <= k < 11 + u + x implies #[trigger] t[k] != '<' by {
        assert(t[k] == text[k - 11 - u]);
    }
    lemma_next_char_is(t, 11 + u, 11 + u + x, '<');
    assert(t.subrange(11 + u + x, 15 + u + x) =~= "</a>"@);
    let l = (9int, 9 + u, 11 + u, 11 + u + x, 15 + u + x);
    assert(link_rest(t, 3) == Some(l));
    assert(t.subrange(3, 8) =~= "href="@);
    // the greedy `[^>]+` stops before the `>` after the address
    assert forall|k: int| 2 <= k < 10 + u implies #[trigger] t[k] != '>' by {
        if 9 <= k < 9 + u {
            assert(t[k] == url[k - 9]);
        }
    }
    lemma_next_char_is(t, 2, 10 + u, '>');
    // no other `href=` stands between
    assert forall|k: int| 3 < k <= 10 + u implies !starts_at(t, k, "href="@) by {
        if starts_at(t, k, "href="@) {
            assert(t.subrange(k, k + 5)[0] == 'h');
            assert(t.subrange(k, k + 5)[4] == '=');
            if k <= 8 {
                assert(t[k] == 'h');
            } else if k + 5 <= 9 + u {
                assert(url.subrange(k - 9, k - 4) =~= t.subrange(k, k + 5));
                assert(starts_at(url, k - 9, "href="@));
            } else {
                // the window holds the closing quote or the `>`
                let j = if k <= 9 + u { 9 + u } else { 10 + u };
                assert(t.subrange(k, k + 5)[j - k] == t[j]);
            }
        }
    }
    lemma_link_search_skips(t, 0, 3, 10 + u);
    assert(link_search(t, 0, 3) == Some(l));
    assert(t.subrange(0, 2) =~= "<a"@);
    assert(starts_at(t, 0, "<a"@));
    assert(next_char(t, 2, '>') == 10 + u);
    assert(link_at(t, 0) == Some(l));
    assert(first_link(t, 0) == Some(l));
    assert(first_link(t, t.len() as int) is None);
    assert(html_links(t, t.len() as int) =~= Seq::<(int, int, int, int)>::empty());
    let links = html_links(t, 0);
    assert(links =~= seq![(9int, 9 + u, 11 + u, 11 + u + x)]);
    assert(t.subrange(9, 9 + u) =~= url);
    assert(t.subrange(11 + u, 11 + u + x) =~= text);
    assert(url.take(4) =~= "http"@);
    assert(links.drop_last() =~= Seq::<(int, int, int, int)>::empty());
    assert(html_records(t, links.drop_last(), now) =~= Seq::<RawDataView>::empty());
    assert(links.last() == (9int, 9 + u, 11 + u, 11 + u + x));
    assert(html_keeps(url, text));
    let recs = html_records(t, links, now);
    assert(recs =~= seq![html_record(url, text, now)]);
}

proof fn lemma_records_prefix(
    t: Seq<char>,
    a: Seq<(int, int, int, int)>,
    b: Seq<(int, int, int, int)>,
    now: Seq<char>,
)
    ensures
        html_records(t, a + b, now).len() >= html_records(t, a, now).len(),
        html_records(t, a + b, now).take(html_records(t, a, now).len() as int) == html_records(
            t,
            a,
            now,
        ),
    decreases b.len(),
{
    if b.len() == 0 {
        assert(a + b =~= a);
        assert(html_records(t, a, now).take(html_records(t, a, now).len() as int) =~= html_records(
            t,
            a,
            now,
        ));
    } else {
        assert((a + b).drop_last() =~= a + b.drop_last());
        lemma_records_prefix(t, a, b.drop_last(), now);
        let prev = html_records(t, a + b.drop_last(), now);
        let n = html_records(t, a, now).len() as int;
        let l = (a + b).last();
        let rec = html_record(t.subrange(l.0, l.1), t.subrange(l.2, l.3), now);
        assert(prev.push(rec).take(n) =~= prev.take(n));
    }
}

/// Computes `next_char`.
fn next_char_exec(t: &Vec<char>, i: usize, c: char) -> (r: usize)
    requires
        i <= t.len(),
    ensures
        r as int == next_char(t@, i as int, c),
        i <= r <= t.len(),
{
    let mut j = i;
    while j < t.len() && t[j] != c
        invariant
            i <= j <= t.len(),
            next_char(t@, i as int, c) == next_char(t@, j as int, c),
        decreases t.len() - j,
    {
        j = j + 1;
    }
    j
}

/// Computes `next_quote`.
fn next_quote_exec(t: &Vec<char>, i: usize) -> (r: usize)
    requires
        i <= t.len(),
    ensures
        r as int == next_quote(t@, i as int),
        i <= r <= t.len(),
{
    let mut j = i;
    while j < t.len() && t[j] != '"' && t[j] != '\''
        invariant
            i <= j <= t.len(),
            next_quote(t@, i as int) == next_quote(t@, j as int),
        decreases t.len() - j,
    {
        j = j + 1;
    }
    j
}

/// Computes `link_rest`.
fn link_rest_exec(t: &Vec<char>, h: usize, close: &Vec<char>) -> (r: Option<
    (usize, usize, usize, usize, usize),
>)
    requires
        h <= t.len(),
        close@ == "</a>"@,
    ensures
        match r {
            Some(l) => link_rest(t@, h as int) == Some(
                (l.0 as int, l.1 as int, l.2 as int, l.3 as int, l.4 as int),
            ) && l.0 <= l.1 <= l.2 <= l.3 <= l.4 <= t.len(),
            None => link_rest(t@, h as int) is None,
        },
{
    if t.len() < 6 || h > t.len() - 6 {
        return None;
    }
    let a = h + 5;
    if t[a] != '"' && t[a] != '\'' {
        return None;
    }
    let u0 = a + 1;
    let u1 = next_quote_exec(t, u0);
    if !(u0 < u1 && u1 < t.len()) {
        return None;
    }
    let g = next_char_exec(t, u1 + 1, '>');
    if g >= t.len() {
        return None;
    }
    let x0 = g + 1;
    let x1 = next_char_exec(t, x0, '<');
    if !starts_at_exec(t, x1, close) {
        return None;
    }
    proof {
        reveal_strlit("</a>");
    }
    Some((u0, u1, x0, x1, x1 + 4))
}

/// Computes `link_at`.
fn link_at_exec(t: &Vec<char>, p: usize, open: &Vec<char>, href: &Vec<char>, close: &Vec<char>) -> (r:
    Option<(usize, usize, usize, usize, usize)>)
    requires
        p <= t.len(),
        open@ == "<a"@,
        href@ == "href="@,
        close@ == "</a>"@,
    ensures
        match r {
            Some(l) => link_at(t@, p as int) == Some(
                (l.0 as int, l.1 as int, l.2 as int, l.3 as int, l.4 as int),
            ) && l.0 <= l.1 <= l.2 <= l.3 <= l.4 <= t.len(),
            None => link_at(t@, p as int) is None,
        },
{
    if !starts_at_exec(t, p, open) {
        return None;
    }
    proof {
        reveal_strlit("<a");
    }
    let g = next_char_exec(t, p + 2, '>');
    let mut h = g;
    loop
        invariant
            p + 2 <= t.len(),
            h <= g <= t.len(),
            href@ == "href="@,
            close@ == "</a>"@,
            link_at(t@, p as int) == link_search(t@, p as int, h as int),
        decreases h,
    {
        if h <= p + 2 {
            return None;
        }
        if starts_at_exec(t, h, href) {
            match link_rest_exec(t, h, close) {
                Some(l) => {
                    return Some(l);
                },
                None => {},
            }
        }
        h = h - 1;
    }
}

/// Computes `first_link`.
fn first_link_exec(t: &Vec<char>, s: usize, open: &Vec<char>, href: &Vec<char>, close: &Vec<char>) -> (r:
    Option<(usize, usize, usize, usize, usize)>)
    requires
        s <= t.len(),
        open@ == "<a"@,
        href@ == "href="@,
        close@ == "</a>"@,
    ensures
        match r {
            Some(l) => first_link(t@, s as int) == Some(
                (l.0 as int, l.1 as int, l.2 as int, l.3 as int, l.4 as int),
            ) && l.0 <= l.1 <= l.2 <= l.3 <= l.4 <= t.len(),
            None => first_link(t@, s as int) is None,
        },
{
    let mut p = s;
    loop
        invariant
            s <= p <= t.len(),
            first_link(t@, s as int) == first_link(t@, p as int),
            open@ == "<a"@,
            href@ == "href="@,
            close@ == "</a>"@,
        decreases t.len() - p,
    {
        match link_at_exec(t, p, open, href, close) {
            Some(l) => {
                return Some(l);
            },
            None => {},
        }
        if p == t.len() {
            return None;
        }
        p = p + 1;
    }
}

/// Reads the items of a web page fetched from `base_url`; `now` is the date
/// given to every item.
fn read_html(html: &str, base_url: &str, now: &str) -> (r: Vec<RawData>)
    ensures
        raw_views(r@) == html_page(html@, base_url@, now@),
{
    let t = chars_of(html);
    let title_open = chars_of("<title>");
    let title_close = chars_of("</title>");
    let tc = first_alt_capture_exec(&t, 0, &title_open, &title_close, &title_open, &title_close);
    let title = group_string(&t, tc);
    let open = chars_of("<a");
    let href = chars_of("href=");
    let close = chars_of("</a>");
    let mut out: Vec<RawData> = Vec::new();
    let mut pos: usize = 0;
    let ghost mut seen: Seq<(int, int, int, int)> = Seq::empty();
    loop
        invariant_except_break
            out@.len() < 20,
        invariant
            t@ == html@,
            open@ == "<a"@,
            href@ == "href="@,
            close@ == "</a>"@,
            pos <= t.len(),
            html_links(t@, 0) == seen + html_links(t@, pos as int),
            raw_views(out@) == html_records(t@, seen, now@),
        ensures
            ({
                let recs = html_records(t@, html_links(t@, 0), now@);
                raw_views(out@) == if recs.len() > 20 {
                    recs.take(20)
                } else {
                    recs
                }
            }),
        decreases t.len() - pos,
    {
        let found = first_link_exec(&t, pos, &open, &href, &close);
        let l = match found {
            None => {
                assert(html_links(t@, pos as int) =~= Seq::<(int, int, int, int)>::empty());
                assert(seen + Seq::<(int, int, int, int)>::empty() =~= seen);
                break ;
            },
            Some(l) => l,
        };
        if l.4 <= pos {
            assert(html_links(t@, pos as int) =~= Seq::<(int, int, int, int)>::empty());
            assert(seen + Seq::<(int, int, int, int)>::empty() =~= seen);
            break ;
        }
        let url = sub_chars(&t, l.0, l.1);
        let text = trimmed(&t, l.2, l.3);
        let keep = starts_with_exec(&url, "http") && byte_len_exceeds(&text, 5);
        proof {
            let ns = seen.push((l.0 as int, l.1 as int, l.2 as int, l.3 as int));
            assert(ns.drop_last() =~= seen);
            assert(seen + html_links(t@, pos as int) =~= ns + html_links(t@, l.4 as int));
            seen = ns;
        }
        if keep {
            out.push(
                RawData {
                    title: string_of(text.as_slice()),
                    content: String::new(),
                    url: string_of(url.as_slice()),
                    published_at: owned(now),
                    category: owned("general"),
                },
            );
        }
        proof {
            assert(raw_views(out@) =~= html_records(t@, seen, now@));
        }
        pos = l.4;
        if out.len() >= 20 {
            proof {
                let rest = html_links(t@, pos as int);
                lemma_records_prefix(t@, seen, rest, now@);
            }
            break ;
        }
    }
    if out.len() == 0 && !title.as_str().is_empty() {
        let content = take_chars_exec(html, 500);
        out.push(
            RawData {
                title,
                content,
                url: owned(base_url),
                published_at: owned(now),
                category: owned("general"),
            },
        );
    }
    out
}


/// Every record read from a feed has a title, a link and the category the
/// feed was read with.
pub proof fn lemma_rss_records_complete(
    t: Seq<char>,
    items: Seq<(int, int)>,
    category: Seq<char>,
    now: Seq<char>,
)
    ensures
        forall|i: int|
            0 <= i < rss_records(t, items, category, now).len() ==> {
                let r = #[trigger] rss_records(t, items, category, now)[i];
                &&& r.title.len() > 0
                &&& r.url.len() > 0
                &&& r.category == category
            },
    decreases items.len(),
{
    if items.len() > 0 {
        lemma_rss_records_complete(t, items.drop_last(), category, now);
        let prev = rss_records(t, items.drop_last(), category, now);
        let recs = rss_records(t, items, category, now);
        assert forall|i: int| 0 <= i < recs.len() implies {
            let r = #[trigger] recs[i];
            &&& r.title.len() > 0
            &&& r.url.len() > 0
            &&& r.category == category
        } by {
            if i < prev.len() {
                assert(recs[i] == prev[i]);
            }
        }
    }
}

/// The items of a feed lie within its text.
pub proof fn lemma_rss_items_within(t: Seq<char>, s: int)
    requires
        0 <= s,
    ensures
        forall|i: int|
            0 <= i < rss_items(t, s).len() ==> 0 <= (#[trigger] rss_items(t, s)[i]).0 <= rss_items(
                t,
                s,
            )[i].1 <= t.len(),
    decreases t.len() - s,
{
    lemma_first_capture_found(t, s, "<item>"@, "</item>"@);
    match first_capture(t, s, "<item>"@, "</item>"@) {
        Some(c) => {
            if !(c.3 <= s || c.3 > t.len()) {
                lemma_rss_items_within(t, c.3);
                let rest = rss_items(t, c.3);
                let all = rss_items(t, s);
                assert(all == seq![(c.1, c.2)] + rest);
                assert forall|i: int| 0 <= i < all.len() implies 0 <= (#[trigger] all[i]).0
                    <= all[i].1 <= t.len() by {
                    if i > 0 {
                        assert(all[i] == rest[i - 1]);
                    }
                }
            }
        },
        None => {},
    }
}

/// No `<pubDate>` anywhere in `t`.
pub open spec fn undated(t: Seq<char>) -> bool {
    forall|p: int| !starts_at(t, p, "<pubDate>"@)
}

/// The records of items that lie within a text without `<pubDate>` all
/// carry the time of reading as their date.
proof fn lemma_rss_records_dated_now(
    t: Seq<char>,
    items: Seq<(int, int)>,
    category: Seq<char>,
    now: Seq<char>,
)
    requires
        undated(t),
        forall|i: int| 0 <= i < items.len() ==> 0 <= (#[trigger] items[i]).0 <= items[i].1 <= t.len(),
    ensures
        forall|i: int|
            0 <= i < rss_records(t, items, category, now).len() ==> (#[trigger] rss_records(
                t,
                items,
                category,
                now,
            )[i]).published_at == now,
    decreases items.len(),
{
    if items.len() > 0 {
        let prev = items.drop_last();
        assert forall|i: int| 0 <= i < prev.len() implies 0 <= (#[trigger] prev[i]).0 <= prev[i].1
            <= t.len() by {
            assert(prev[i] == items[i]);
        }
        lemma_rss_records_dated_now(t, prev, category, now);
        let last = items[items.len() - 1];
        let item = t.subrange(last.0, last.1);
        lemma_first_capture_found(item, 0, "<pubDate>"@, "</pubDate>"@);
        match first_capture(item, 0, "<pubDate>"@, "</pubDate>"@) {
            Some(c) => {
                let q = c.1 - "<pubDate>"@.len();
                assert(t.subrange(last.0 + q, last.0 + q + "<pubDate>"@.len()) =~= item.subrange(
                    q,
                    q + "<pubDate>"@.len(),
                ));
                assert(starts_at(t, last.0 + q, "<pubDate>"@));
            },
            None => {},
        }
        assert(rss_date(item, now) == now);
        let recs = rss_records(t, items, category, now);
        let before = rss_records(t, prev, category, now);
        assert forall|i: int| 0 <= i < recs.len() implies (#[trigger] recs[i]).published_at
            == now by {
            if i < before.len() {
                assert(recs[i] == before[i]);
            }
        }
    }
}

/// An item without `<pubDate>` is dated with the time of reading.
pub proof fn lemma_rss_item_undated(item: Seq<char>, category: Seq<char>, now: Seq<char>)
    requires
        undated(item),
    ensures
        rss_record(item, category, now).published_at == now,
{
    lemma_first_capture_found(item, 0, "<pubDate>"@, "</pubDate>"@);
}

/// An item without a date is dated with the time of reading: when a feed
/// holds no `<pubDate>` at all, every item read from it carries `now` as
/// its date.
pub proof fn lemma_rss_undated_items(xml: Seq<char>, category: Seq<char>, now: Seq<char>)
    requires
        undated(xml),
    ensures
        forall|i: int|
            0 <= i < rss_feed(xml, category, now).len() ==> (#[trigger] rss_feed(
                xml,
                category,
                now,
            )[i]).published_at == now,
{
    lemma_rss_items_within(xml, 0);
    lemma_rss_records_dated_now(xml, rss_items(xml, 0), category, now);
}

/// Every record read from the links of a page has an `http` address, a
/// title longer than five bytes and the category `general`.
pub proof fn lemma_html_records_kept(t: Seq<char>, links: Seq<(int, int, int, int)>, now: Seq<char>)
    ensures
        forall|i: int|
            0 <= i < html_records(t, links, now).len() ==> {
                let r = #[trigger] html_records(t, links, now)[i];
                &&& "http"@.len() <= r.url.len()
                &&& r.url.take("http"@.len() as int) == "http"@
                &&& byte_len(r.title) > 5
                &&& r.category == "general"@
            },
    decreases links.len(),
{
    if links.len() > 0 {
        lemma_html_records_kept(t, links.drop_last(), now);
        let prev = html_records(t, links.drop_last(), now);
        let recs = html_records(t, links, now);
        assert forall|i: int| 0 <= i < recs.len() implies {
            let r = #[trigger] recs[i];
            &&& "http"@.len() <= r.url.len()
            &&& r.url.take("http"@.len() as int) == "http"@
            &&& byte_len(r.title) > 5
            &&& r.category == "general"@
        } by {
            if i < prev.len() {
                assert(recs[i] == prev[i]);
            }
        }
    }
}

// ---------------------------------------------------------------------------
// Collectors
// ---------------------------------------------------------------------------

/// The current time in RFC 3339 form: `chrono::Utc::now().to_rfc3339()`.
/// Which time it is depends on the clock, so only what holds of every
/// answer is stated: the text is not empty (`to_rfc3339` always writes the
/// date, the time and the offset, as in `2024-05-01T08:00:00+00:00`).
#[verifier::external_body]
fn now_rfc3339() -> (r: String)
    ensures
        r@.len() > 0,
{
    chrono::Utc::now().to_rfc3339()
}

/// Collects from RSS feeds.
pub struct RSSCollector;

impl RSSCollector {
    /// A feed collector.
    pub fn new() -> Self {
        RSSCollector
    }

    /// The items of a feed read at time `now` (the date of an item without
    /// one), each with the given category.
    pub fn parse_rss_at(xml: &str, category: &str, now: &str) -> (r: Vec<RawData>)
        ensures
            raw_views(r@) == rss_feed(xml@, category@, now@),
            forall|i: int|
                0 <= i < r@.len() ==> {
                    &&& (#[trigger] r@[i]).title@.len() > 0
                    &&& r@[i].url@.len() > 0
                    &&& r@[i].category@ == category@
                },
    {
        let r = read_rss(xml, category, now);
        proof {
            lemma_rss_records_complete(xml@, rss_items(xml@, 0), category@, now@);
            assert forall|i: int| 0 <= i < r@.len() implies {
                &&& (#[trigger] r@[i]).title@.len() > 0
                &&& r@[i].url@.len() > 0
                &&& r@[i].category@ == category@
            } by {
                assert(raw_views(r@)[i] == r@[i]@);
            }
        }
        r
    }

    /// The items of a feed, each with the given category; an item without a
    /// date is dated with the current time.
    pub fn parse_rss(xml: &str, category: &str) -> (r: Result<Vec<RawData>, CollectorError>)
        ensures
            r matches Ok(v) && {
                &&& exists|now: Seq<char>|
                    now.len() > 0 && #[trigger] rss_feed(xml@, category@, now) == raw_views(v@)
                &&& undated(xml@) ==> forall|i: int|
                    0 <= i < v@.len() ==> (#[trigger] v@[i]).published_at@.len() > 0
                &&& forall|i: int|
                    0 <= i < v@.len() ==> {
                        &&& (#[trigger] v@[i]).title@.len() > 0
                        &&& v@[i].url@.len() > 0
                        &&& v@[i].category@ == category@
                    }
            },
    {
        let now = now_rfc3339();
        let v = Self::parse_rss_at(xml, category, now.as_str());
        assert(raw_views(v@) == rss_feed(xml@, category@, now@));
        proof {
            if undated(xml@) {
                lemma_rss_undated_items(xml@, category@, now@);
                assert forall|i: int| 0 <= i < v@.len() implies (#[trigger] v@[i]).published_at@.len()
                    > 0 by {
                    assert(raw_views(v@)[i] == v@[i]@);
                }
            }
        }
        Ok(v)
    }
}

/// Collects from web pages.
pub struct WebsiteCollector;

impl WebsiteCollector {
    /// A page collector.
    pub fn new() -> Self {
        WebsiteCollector
    }

    /// The items of a page fetched from `base_url`, read at time `now` (the
    /// date of every item).
    pub fn parse_html_at(html: &str, base_url: &str, now: &str) -> (r: Vec<RawData>)
        ensures
            raw_views(r@) == html_page(html@, base_url@, now@),
            r@.len() <= 20,
            forall|i: int| 0 <= i < r@.len() ==> (#[trigger] r@[i]).category@ == "general"@,
    {
        let r = read_html(html, base_url, now);
        proof {
            let recs = html_records(html@, html_links(html@, 0), now@);
            lemma_html_records_kept(html@, html_links(html@, 0), now@);
            assert(raw_views(r@).len() == r@.len());
            assert forall|i: int| 0 <= i < r@.len() implies (#[trigger] r@[i]).category@ == "general"@ by {
                assert(raw_views(r@)[i] == r@[i]@);
                if recs.len() > 0 {
                    if recs.len() > 20 {
                        assert(recs.take(20)[i] == recs[i]);
                    }
                }
            }
        }
        r
    }

    /// The items of a page fetched from `base_url`, dated with the current
    /// time.
    pub fn parse_html(html: &str, base_url: &str) -> (r: Vec<RawData>)
        ensures
            exists|now: Seq<char>| raw_views(r@) == html_page(html@, base_url@, now),
            r@.len() <= 20,
            forall|i: int| 0 <= i < r@.len() ==> (#[trigger] r@[i]).category@ == "general"@,
    {
        let now = now_rfc3339();
        let v = Self::parse_html_at(html, base_url, now.as_str());
        assert(raw_views(v@) == html_page(html@, base_url@, now@));
        v
    }
}

/// A collector of either kind.
pub enum CollectorVariant {
    RSS(RSSCollector),
    Website(WebsiteCollector),
}

/// Makes collectors.
pub struct CollectorFactory;

impl CollectorFactory {
    /// The collector for a source type: `rss` gives the feed collector,
    /// `website` the page collector (case ignored); any other type is
    /// unsupported.
    pub fn create(source_type: &str) -> (r: Result<Box<CollectorVariant>, CollectorError>)
        ensures
            lower_equals(source_type@, "rss"@) ==> (r matches Ok(c) && *c is RSS),
            !lower_equals(source_type@, "rss"@) && lower_equals(source_type@, "website"@) ==> (
            r matches Ok(c) && *c is Website),
            !lower_equals(source_type@, "rss"@) && !lower_equals(source_type@, "website"@) ==> (
            r matches Err(e) && e is UnsupportedSource),
    {
        let v = chars_of(source_type);
        if lower_equals_exec(&v, "rss") {
            Ok(Box::new(CollectorVariant::RSS(RSSCollector::new())))
        } else if lower_equals_exec(&v, "website") {
            Ok(Box::new(CollectorVariant::Website(WebsiteCollector::new())))
        } else {
            Err(CollectorError::UnsupportedSource)
        }
    }
}

} // verus!
