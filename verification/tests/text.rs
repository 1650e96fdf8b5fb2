use pihole_exporter::text::{decimal_string, same_text, signed_decimal_string};

#[test]
fn decimal_of_unsigned() {
    assert_eq!(decimal_string(0), "0");
    assert_eq!(decimal_string(7), "7");
    assert_eq!(decimal_string(10), "10");
    assert_eq!(decimal_string(1000000), "1000000");
    assert_eq!(decimal_string(1234567890), "1234567890");
    assert_eq!(decimal_string(u64::MAX), "18446744073709551615");
}

#[test]
fn decimal_agrees_with_std() {
    for n in [0u64, 9, 10, 99, 100, 101, 65535, 1700000040, u64::MAX - 1] {
        assert_eq!(decimal_string(n), n.to_string());
    }
}

#[test]
fn decimal_of_signed() {
    assert_eq!(signed_decimal_string(0), "0");
    assert_eq!(signed_decimal_string(53), "53");
    assert_eq!(signed_decimal_string(-1), "-1");
    assert_eq!(signed_decimal_string(5353), "5353");
    assert_eq!(signed_decimal_string(i16::MAX), "32767");
    assert_eq!(signed_decimal_string(i16::MIN), "-32768");
}

#[test]
fn same_text_compares_characters() {
    assert!(same_text("CACHE", "CACHE"));
    assert!(!same_text("CACHE", "cache"));
    assert!(!same_text("CACHE", "CACHED"));
    assert!(same_text("", ""));
}
