use theoj::text::{decimal_string, push_decimal};

#[test]
fn decimal_texts() {
    assert_eq!(decimal_string(0), "0");
    assert_eq!(decimal_string(7), "7");
    assert_eq!(decimal_string(1234567890), "1234567890");
    assert_eq!(decimal_string(-42), "-42");
    assert_eq!(decimal_string(i64::MIN), "-9223372036854775808");
    assert_eq!(decimal_string(i64::MAX), "9223372036854775807");
}

#[test]
fn decimal_appends() {
    let mut s = "x=".to_string();
    push_decimal(&mut s, 10);
    assert_eq!(s, "x=10");
}
