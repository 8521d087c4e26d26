use locagate::text::{
    contains, decimal, ends_with, hex4_string, replace_all, replace_char, starts_with, str_eq,
    strip_prefix, trim,
};

#[test]
fn searches() {
    assert!(contains("text/html,*/*", "*/*"));
    assert!(!contains("abc", "abd"));
    assert!(contains("abc", ""));
    assert!(starts_with("https://x", "https://"));
    assert!(!starts_with("http", "https"));
    assert!(ends_with("a.jpeg", ".jpeg"));
    assert!(!ends_with("a.jpg", ".jpeg"));
    assert!(str_eq("é", "é"));
    assert!(!str_eq("a", "ab"));
}

#[test]
fn rewrites() {
    assert_eq!(trim("  a b \t\n"), "a b");
    assert_eq!(trim("\u{3000}x\u{a0}"), "x");
    assert_eq!(trim("   "), "");
    assert_eq!(replace_char("a.b.c", '.', "-"), "a-b-c");
    assert_eq!(replace_all("aaa", "aa", "b"), "ba");
    assert_eq!(replace_all("x", "yy", "z"), "x");
    assert_eq!(strip_prefix("127.0.0.1:80", "127.0.0.1:"), Some("80".to_string()));
    assert_eq!(strip_prefix("80", "127.0.0.1:"), None);
}

#[test]
fn numbers() {
    assert_eq!(decimal(0), "0");
    assert_eq!(decimal(4294967295), "4294967295");
    assert_eq!(hex4_string(0), "0000");
    assert_eq!(hex4_string(0x12345), "12345");
}
