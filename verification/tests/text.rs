use mcp_auth_proxy::text::{
    contains, decimal_text, first_line_of, join, keep_non_empty, rfind, same_text, split_text,
    starts_with, trim, trim_end, trim_end_matches, trim_start, trim_start_matches, words_of,
};

#[test]
fn trimming() {
    assert_eq!(trim_start_matches("//a/b/", '/'), "a/b/");
    assert_eq!(trim_end_matches("/a/b//", '/'), "/a/b");
    assert_eq!(trim_end_matches("///", '/'), "");
    assert_eq!(trim("\u{a0} a b \t\r\n"), "a b");
    assert_eq!(trim_start(" \u{3000}x "), "x ");
    assert_eq!(trim_end(" x\u{2028}\u{85} "), " x");
}

#[test]
fn trimming_agrees_with_the_standard_library() {
    for code in 0u32..0x11000 {
        if let Some(c) = char::from_u32(code) {
            let s = format!("{}x{}", c, c);
            assert_eq!(trim(&s), s.trim());
        }
    }
}

#[test]
fn splitting() {
    assert_eq!(split_text("/a//b", '/'), vec!["", "a", "", "b"]);
    assert_eq!(split_text("", '/'), vec![""]);
    assert_eq!(keep_non_empty(split_text("/a//b/", '/')), vec!["a", "b"]);
    assert_eq!(words_of(" GET  /callback?x\tHTTP/1.1\r\n"), vec!["GET", "/callback?x", "HTTP/1.1"]);
    assert!(words_of(" \t ").is_empty());
}

#[test]
fn lines() {
    assert_eq!(first_line_of(""), None);
    assert_eq!(first_line_of("one"), Some("one"));
    assert_eq!(first_line_of("one\r\ntwo"), Some("one"));
    assert_eq!(first_line_of("one\ntwo"), Some("one"));
    assert_eq!(first_line_of("\n"), Some(""));
    assert_eq!(first_line_of("one\r"), Some("one\r"));
}

#[test]
fn searching() {
    assert!(contains("application/json; charset=utf-8", "application/json"));
    assert!(!contains("text/html", "application/json"));
    assert!(contains("abc", ""));
    assert!(starts_with("op://vault", "op://"));
    assert!(!starts_with("op:/", "op://"));
    assert_eq!(rfind("é/b/c", '/'), Some(3));
    assert_eq!(rfind("abc", '/'), None);
    assert!(same_text("é", "é"));
    assert!(!same_text("a", "ab"));
}

#[test]
fn joining() {
    let parts = vec!["a".to_string(), "b".to_string(), "c".to_string()];
    assert_eq!(join(&parts, "/"), "a/b/c");
    assert_eq!(join(&parts[..1], "/"), "a");
    assert_eq!(join(&[], "/"), "");
}

#[test]
fn numbers() {
    assert_eq!(decimal_text(0), "0");
    assert_eq!(decimal_text(8765), "8765");
    assert_eq!(decimal_text(u64::MAX), "18446744073709551615");
}
