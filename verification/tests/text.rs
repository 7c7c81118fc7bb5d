use cargo_embed::text::{decimal_i128, split_lines};

#[test]
fn decimal_numerals() {
    assert_eq!(decimal_i128(i128::MIN), i128::MIN.to_string());
    assert_eq!(decimal_i128(i128::MAX), i128::MAX.to_string());
    assert_eq!(decimal_i128(0), "0");
    assert_eq!(decimal_i128(-7), "-7");
    assert_eq!(decimal_i128(1_700_000_000_123), "1700000000123");
}

#[test]
fn lines_agree_with_std() {
    for text in [
        "", "\n", "a", "a\n", "a\r\n", "a\r", "a\nb", "a\n\nb\n", "\r\n\r\n", "a\r\r\nb", "é\nü\r\nx",
    ] {
        let expected: Vec<String> = text.lines().map(|l| l.to_string()).collect();
        assert_eq!(split_lines(text), expected, "{text:?}");
    }
}
