use moblink_rust::text::{
    contains_text, decimal, is_empty, join, split_once, trim, white_space,
};

#[test]
fn white_space_is_that_of_unicode() {
    let mut n: u32 = 0;
    while n <= 0x10ffff {
        if let Some(c) = char::from_u32(n) {
            assert_eq!(white_space(c), c.is_whitespace(), "{:x}", n);
        }
        n += 1;
    }
}

#[test]
fn trim_takes_white_space_off_both_ends() {
    assert_eq!(trim(" \t eth 0\n"), "eth 0");
    assert_eq!(trim("\u{2003}x\u{a0}"), "x");
    assert_eq!(trim("   "), "");
    assert_eq!(trim(""), "");
    assert_eq!(trim("x"), "x");
}

#[test]
fn split_once_splits_at_the_first_separator() {
    assert_eq!(
        split_once("eth0=WAN=1", '='),
        Some(("eth0".to_string(), "WAN=1".to_string()))
    );
    assert_eq!(split_once("=x", '='), Some((String::new(), "x".to_string())));
    assert_eq!(split_once("x=", '='), Some(("x".to_string(), String::new())));
    assert_eq!(split_once("eth0", '='), None);
    assert_eq!(split_once("", '='), None);
}

#[test]
fn join_puts_separators_between() {
    assert_eq!(join(&["a", "b", "c"], ", "), "a, b, c");
    assert_eq!(join(&["a"], ", "), "a");
    assert_eq!(join(&[], ", "), "");
}

#[test]
fn contains_text_finds_a_text_anywhere() {
    assert!(contains_text("IO error: reset by peer", "reset"));
    assert!(contains_text("aab", "ab"));
    assert!(contains_text("reset", "reset"));
    assert!(contains_text("reset", ""));
    assert!(contains_text("", ""));
    assert!(!contains_text("rese", "reset"));
    assert!(!contains_text("resat", "reset"));
}

#[test]
fn decimal_writes_numbers() {
    assert_eq!(decimal(0), "0");
    assert_eq!(decimal(9), "9");
    assert_eq!(decimal(10), "10");
    assert_eq!(decimal(65535), "65535");
    assert_eq!(decimal(u64::MAX), "18446744073709551615");
}

#[test]
fn decimal_reads_back() {
    let mut n: u64 = 1;
    while n < 1_000_000_000_000 {
        assert_eq!(decimal(n).parse::<u64>(), Ok(n));
        n = n * 7 + 3;
    }
}

#[test]
fn is_empty_tells_an_empty_text() {
    assert!(is_empty(&String::new()));
    assert!(!is_empty(&" ".to_string()));
}
