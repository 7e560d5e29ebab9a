use ai_news_pusher::text::{
    byte_len_exceeds, chars_of, contains_char, decimal_i64, decimal_u64,
    first_line_exec, is_whitespace_exec, lower_equals_exec, owned, parse_u16_exec,
    replace_char_exec, same_text, split_char_exec, starts_with_exec, take_chars_exec, trimmed,
};

const SAMPLES: [&str; 12] = [
    "",
    "abc",
    "  padded\t\n",
    "line one\nline two",
    "windows\r\nline",
    "only\r",
    "\nleading newline",
    "多字节文本，中文内容",
    "a:b::c:",
    "\u{3000}ideographic space\u{85}",
    "emoji 📰 here",
    "+123",
];

#[test]
fn chars_and_owned_keep_the_text() {
    for s in SAMPLES {
        let v = chars_of(s);
        assert_eq!(v, s.chars().collect::<Vec<char>>());
        assert_eq!(owned(s), s.to_string());
    }
}

#[test]
fn concat_joins_two_texts() {
    assert_eq!(ai_news_pusher::text::concat("请求错误: ", "timeout"), "请求错误: timeout");
    assert_eq!(ai_news_pusher::text::concat("", ""), "");
}

#[test]
fn same_text_compares_exactly() {
    assert!(same_text("openai", "openai"));
    assert!(!same_text("openai", "OpenAI"));
    assert!(!same_text("open", "openai"));
}

#[test]
fn first_line_matches_lines_next() {
    for s in SAMPLES {
        let expected = s.lines().next().unwrap_or("").to_string();
        assert_eq!(first_line_exec(s), expected, "input {:?}", s);
    }
}

#[test]
fn take_chars_matches_std() {
    for s in SAMPLES {
        for n in [0usize, 1, 3, 5, 200] {
            let expected: String = s.chars().take(n).collect();
            assert_eq!(take_chars_exec(s, n), expected);
        }
    }
}

#[test]
fn trimmed_matches_str_trim() {
    for s in SAMPLES {
        let v = chars_of(s);
        let t: String = trimmed(&v, 0, v.len()).into_iter().collect();
        assert_eq!(t, s.trim(), "input {:?}", s);
    }
}

#[test]
fn whitespace_matches_char_is_whitespace() {
    for c in ['\t', '\n', ' ', '\u{85}', '\u{a0}', '\u{2028}', '\u{3000}', 'a', '中', '\u{200b}'] {
        assert_eq!(is_whitespace_exec(c), c.is_whitespace(), "char {:?}", c);
    }
}

#[test]
fn decimals_match_display() {
    for n in [0u64, 7, 10, 42, 1234567890, u64::MAX] {
        assert_eq!(decimal_u64(n), n.to_string());
    }
    for n in [0i64, -1, 9, -10, 123456789, i64::MIN, i64::MAX] {
        assert_eq!(decimal_i64(n), n.to_string());
    }
}

#[test]
fn split_matches_str_split() {
    for s in SAMPLES {
        let expected: Vec<String> = s.split(':').map(String::from).collect();
        assert_eq!(split_char_exec(s, ':'), expected, "input {:?}", s);
    }
}

#[test]
fn parse_u16_matches_std() {
    for s in ["587", "+25", "", "+", "65535", "65536", "-1", "12a", " 25", "0025", "99999999999999999999"] {
        assert_eq!(parse_u16_exec(s), s.parse::<u16>().ok(), "input {:?}", s);
    }
}

#[test]
fn replace_char_matches_str_replace() {
    for s in SAMPLES {
        assert_eq!(replace_char_exec(s, '\n', "<br>"), s.replace('\n', "<br>"));
    }
}

#[test]
fn lower_equals_ignores_case() {
    assert!(lower_equals_exec(&chars_of("RSS"), "rss"));
    assert!(lower_equals_exec(&chars_of("WebSite"), "website"));
    assert!(!lower_equals_exec(&chars_of("rsss"), "rss"));
    assert!(!lower_equals_exec(&chars_of("jina"), "rss"));
}

#[test]
fn starts_with_and_contains() {
    let v = chars_of("https://example.com");
    assert!(starts_with_exec(&v, "http"));
    assert!(!starts_with_exec(&v, "ftp"));
    assert!(contains_char(&v, ':'));
    assert!(!contains_char(&v, '@'));
}

#[test]
fn byte_length_counts_utf8_bytes() {
    assert!(!byte_len_exceeds(&chars_of("abc"), 3));
    assert!(byte_len_exceeds(&chars_of("abcd"), 3));
    // two characters of three bytes each
    assert!(byte_len_exceeds(&chars_of("中文"), 5));
    assert!(!byte_len_exceeds(&chars_of("中文"), 6));
}
