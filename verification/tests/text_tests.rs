use equilibrium::text::decimal_string;

#[test]
fn decimal_string_renders_single_digits() {
    assert_eq!(decimal_string(0), "0");
    assert_eq!(decimal_string(7), "7");
    assert_eq!(decimal_string(9), "9");
}

#[test]
fn decimal_string_renders_longer_numbers() {
    assert_eq!(decimal_string(10), "10");
    assert_eq!(decimal_string(12), "12");
    assert_eq!(decimal_string(120), "120");
    assert_eq!(decimal_string(98765), "98765");
    assert_eq!(decimal_string(u64::from(u32::MAX)), "4294967295");
}
