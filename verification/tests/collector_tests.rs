use ai_news_pusher::engine::collector::{
    CollectorError, CollectorFactory, CollectorVariant, RSSCollector, RawData, WebsiteCollector,
};
use regex::Regex;

const NOW: &str = "2024-05-01T08:00:00+00:00";

fn flat(items: &[RawData]) -> Vec<(String, String, String, String, String)> {
    items
        .iter()
        .map(|d| (d.title.clone(), d.content.clone(), d.url.clone(), d.published_at.clone(), d.category.clone()))
        .collect()
}

/// The feed reading of the regular expressions the collector is specified by.
fn rss_by_regex(xml: &str, category: &str) -> Vec<(String, String, String, String, String)> {
    let item_regex = Regex::new(r"<item>(.*?)</item>").unwrap();
    let title_regex = Regex::new(r"<title><!\[CDATA\[(.*?)\]\]></title>|<title>(.*?)</title>").unwrap();
    let link_regex = Regex::new(r"<link>(.*?)</link>").unwrap();
    let desc_regex =
        Regex::new(r"<description><!\[CDATA\[(.*?)\]\]></description>|<description>(.*?)</description>").unwrap();
    let date_regex = Regex::new(r"<pubDate>(.*?)</pubDate>").unwrap();
    let mut out = Vec::new();
    for cap in item_regex.captures_iter(xml) {
        let item = &cap[1];
        let title = title_regex
            .captures(item)
            .map(|c| c.get(1).or(c.get(2)).map(|m| m.as_str().to_string()).unwrap_or_default())
            .unwrap_or_default();
        let url = link_regex
            .captures(item)
            .map(|c| c.get(1).map(|m| m.as_str().to_string()).unwrap_or_default())
            .unwrap_or_default();
        let content = desc_regex
            .captures(item)
            .map(|c| c.get(1).map(|m| m.as_str().to_string()).unwrap_or_default())
            .unwrap_or_default();
        let published_at = date_regex
            .captures(item)
            .map(|c| c.get(1).map(|m| m.as_str().to_string()).unwrap_or_default())
            .unwrap_or_else(|| NOW.to_string());
        if !title.is_empty() && !url.is_empty() {
            out.push((title, content, url, published_at, category.to_string()));
        }
    }
    out
}

/// The page reading of the regular expressions the collector is specified by.
fn html_by_regex(html: &str, base_url: &str) -> Vec<(String, String, String, String, String)> {
    let title_regex = Regex::new(r"<title>(.*?)</title>").unwrap();
    let page_title = title_regex
        .captures(html)
        .map(|c| c.get(1).map(|m| m.as_str().to_string()).unwrap_or_default())
        .unwrap_or_default();
    let link_regex = Regex::new(r#"<a[^>]+href=["']([^"']+)["'][^>]*>([^<]*)</a>"#).unwrap();
    let mut out = Vec::new();
    for cap in link_regex.captures_iter(html) {
        let url = cap.get(1).map(|m| m.as_str()).unwrap_or("");
        let text = cap.get(2).map(|m| m.as_str()).unwrap_or("").trim().to_string();
        if url.starts_with("http") && text.len() > 5 {
            out.push((text, String::new(), url.to_string(), NOW.to_string(), "general".to_string()));
        }
        if out.len() >= 20 {
            break;
        }
    }
    if out.is_empty() && !page_title.is_empty() {
        out.push((page_title, html.chars().take(500).collect(), base_url.to_string(), NOW.to_string(), "general".to_string()));
    }
    out
}

fn feeds() -> Vec<String> {
    vec![
        String::new(),
        "<rss><channel><item><title>A</title><link>https://a</link></item></channel></rss>".to_string(),
        "<item><title><![CDATA[标题 <b>粗</b>]]></title><link>https://x/1</link>\
         <description><![CDATA[内容]]></description><pubDate>Mon, 01 Jan 2024</pubDate></item>\
         <item><title>Plain</title><link>https://x/2</link><description>no cdata</description></item>\
         <item><title></title><link>https://x/3</link></item>\
         <item><title>No link</title></item>"
            .to_string(),
        "<item><title>Multi\nline</title><link>https://x/4</link></item><item>\n<title>T</title>\n<link>L</link>\n</item>"
            .to_string(),
        "<item><title>One</title><link>https://x/5</link><item><title>Two</title><link>https://x/6</link></item></item>"
            .to_string(),
        "<item><title>A</title><title><![CDATA[B]]></title><link>https://x/7</link><link>https://x/8</link></item>"
            .to_string(),
        "<item><description>d</description><title>t</title><link>l</link></item><item></item><item><title>x"
            .to_string(),
        "<item><title><![CDATA[unclosed</title><link>u</link></item>".to_string(),
    ]
}

fn pages() -> Vec<String> {
    let mut many = String::from("<html><title>Many</title>");
    for i in 0..25 {
        many.push_str(&format!("<a href=\"https://site/{}\">Article number {}</a>", i, i));
    }
    vec![
        String::new(),
        "<html><head><title>Home page</title></head><body>nothing</body></html>".to_string(),
        "<title>T</title><a href=\"https://example.com/long\">  A long title  </a>\
         <a href='http://example.com/q'>short</a><a class=\"x\" href=\"/relative\">Relative link text</a>\
         <a href=\"https://example.com/b\" target=\"_blank\">Another article</a>"
            .to_string(),
        "<a data-href=\"https://no\" href=\"https://yes/1\">Which href wins?</a>".to_string(),
        "<a href=\"https://a\" title=\"x\" href=\"https://b\">Second href here</a>".to_string(),
        "<a\nhref=\"https://nl\">Newline before href</a><a href=\"https://e\"></a>".to_string(),
        "<title>中文标题</title><a href=\"https://cn\">中文中文</a>".to_string(),
        "<a href=\"https://x\">text <b>bold</b></a><a  href=https://noquote>No quotes at all</a>".to_string(),
        many,
        format!("<title>Big</title>{}", "字".repeat(600)),
    ]
}

#[test]
fn rss_reading_matches_the_regular_expressions() {
    for xml in feeds() {
        for category in ["rss", "tech"] {
            let got = RSSCollector::parse_rss_at(&xml, category, NOW);
            assert_eq!(flat(&got), rss_by_regex(&xml, category), "feed {:?}", xml);
        }
    }
}

#[test]
fn html_reading_matches_the_regular_expressions() {
    for html in pages() {
        let got = WebsiteCollector::parse_html_at(&html, "https://base", NOW);
        assert_eq!(flat(&got), html_by_regex(&html, "https://base"), "page {:?}", html);
    }
}

#[test]
fn html_keeps_at_most_twenty_links() {
    let page = pages().into_iter().nth(8).unwrap();
    let got = WebsiteCollector::parse_html_at(&page, "https://base", NOW);
    assert_eq!(got.len(), 20);
    assert_eq!(got[0].url, "https://site/0");
    assert_eq!(got[19].title, "Article number 19");
}

#[test]
fn a_page_without_links_becomes_one_item() {
    let page = format!("<title>Big</title>{}", "字".repeat(600));
    let got = WebsiteCollector::parse_html_at(&page, "https://base", NOW);
    assert_eq!(got.len(), 1);
    assert_eq!(got[0].title, "Big");
    assert_eq!(got[0].url, "https://base");
    assert_eq!(got[0].content.chars().count(), 500);
    assert_eq!(got[0].category, "general");
}

#[test]
fn rss_with_the_clock_keeps_the_items() {
    let xml = "<item><title>A</title><link>https://a</link><pubDate>D</pubDate></item>";
    let got = RSSCollector::parse_rss(xml, "rss").ok().unwrap();
    assert_eq!(got.len(), 1);
    assert_eq!(got[0].published_at, "D");
    let page = "<title>T</title>";
    let items = WebsiteCollector::parse_html(page, "https://p");
    assert_eq!(items.len(), 1);
    assert!(!items[0].published_at.is_empty());
}

#[test]
fn the_factory_picks_by_kind() {
    assert!(matches!(CollectorFactory::create("RSS").ok().map(|b| *b), Some(CollectorVariant::RSS(_))));
    assert!(matches!(CollectorFactory::create("website").ok().map(|b| *b), Some(CollectorVariant::Website(_))));
    match CollectorFactory::create("jina") {
        Err(e) => {
            assert!(matches!(e, CollectorError::UnsupportedSource));
            assert_eq!(e.to_string(), "不支持的源类型");
        }
        Ok(_) => panic!("jina has no collector"),
    }
}

#[test]
fn collector_error_texts() {
    assert_eq!(CollectorError::Request("x".to_string()).to_string(), "请求错误: x");
    assert_eq!(CollectorError::Parse("y".to_string()).to_string(), "解析错误: y");
}
