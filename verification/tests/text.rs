use xrpl_packet_interceptor::text::{chars_of, decimal, join, replace_all, starts_with};

#[test]
fn decimal_rendering() {
    assert_eq!(decimal(0), "0");
    assert_eq!(decimal(7), "7");
    assert_eq!(decimal(10), "10");
    assert_eq!(decimal(65535), "65535");
    assert_eq!(decimal(u64::MAX), u64::MAX.to_string());
}

#[test]
fn replacing() {
    assert_eq!(replace_all("aXbXc", "X", "--"), "a--b--c");
    assert_eq!(replace_all("aaa", "aa", "b"), "ba");
    assert_eq!(replace_all("é{x}é", "{x}", "ü"), "éüé");
    assert_eq!(replace_all("", "x", "y"), "");
}

#[test]
fn joining_and_prefixes() {
    let items = vec!["a".to_string(), "bc".to_string(), "".to_string()];
    assert_eq!(join(&items, "\n"), "a\nbc\n");
    assert_eq!(join(&vec![], ","), "");
    assert!(starts_with("héllo", "hé"));
    assert!(!starts_with("he", "hello"));
    assert_eq!(chars_of("aé"), vec!['a', 'é']);
}
