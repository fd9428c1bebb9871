use tgb_cli::html::element_text;
use tgb_cli::numbers::parse_i64;
use tgb_cli::text::{chars_of, clean_inline_chars, trim_str};

fn clean(s: &str) -> String {
    clean_inline_chars(&chars_of(s)).into_iter().collect()
}

#[test]
fn inline_text_collapses_unicode_whitespace() {
    assert_eq!(clean("  a \t b\u{3000}c\n"), "a b c");
    assert_eq!(clean(" \u{a0} "), "");
    assert_eq!(trim_str("\u{2003} x y \n").into_iter().collect::<String>(), "x y");
}

#[test]
fn element_text_joins_distinct_lines() {
    let frags = vec![" 一 ".to_string(), "\n".to_string(), "一".to_string(), "二  三".to_string(), "一".to_string()];
    assert_eq!(element_text(&frags), "一\n二 三\n一");
}

#[test]
fn integers_parse_as_std_does() {
    for s in ["0", "12345", "+7", "-9223372036854775808", "9223372036854775807", "9223372036854775808", "", "+", "-", "1a", "٣", "007"] {
        assert_eq!(parse_i64(s), s.parse::<i64>().ok(), "{s}");
    }
}

#[test]
fn inline_normal_form_is_stable() {
    let once = clean("  a \n\t b  ");
    assert_eq!(once, "a b");
    assert_eq!(clean(&once), once);
    let mixed = clean("\u{3000}股票\u{2003}\u{2003}复盘 \r\n 笔记 ");
    assert_eq!(mixed, "股票 复盘 笔记");
    assert_eq!(clean(&mixed), mixed);
    assert!(!mixed.contains("  "));
}
