use llm_sidecar::text::{decimal_text, join2};

#[test]
fn decimal_text_writes_plain_digits() {
    assert_eq!(decimal_text(0), "0");
    assert_eq!(decimal_text(7), "7");
    assert_eq!(decimal_text(10), "10");
    assert_eq!(decimal_text(1234), "1234");
    assert_eq!(decimal_text(65535), "65535");
    assert_eq!(decimal_text(1000000007), "1000000007");
    assert_eq!(decimal_text(u64::MAX), "18446744073709551615");
}

#[test]
fn decimal_text_agrees_with_the_standard_library() {
    for n in 0u64..2000 {
        assert_eq!(decimal_text(n), n.to_string());
    }
}

#[test]
fn join2_puts_the_second_behind_the_first() {
    assert_eq!(join2("ab", "cd"), "abcd");
    assert_eq!(join2("", "x"), "x");
    assert_eq!(join2("x", ""), "x");
}
