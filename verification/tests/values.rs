use lasso_zen_bre::values::{parse_unsigned, HostAddr, InputText, TextValue};

fn text(s: &str) -> InputText {
    InputText { text: s.to_string(), ip: None }
}

#[test]
fn unsigned_numbers_read_in_decimal() {
    assert_eq!(parse_unsigned("0", 255), Some(0));
    assert_eq!(parse_unsigned("255", 255), Some(255));
    assert_eq!(parse_unsigned("+42", 255), Some(42));
    assert_eq!(parse_unsigned("007", 255), Some(7));
    assert_eq!(parse_unsigned("18446744073709551615", u64::MAX), Some(u64::MAX));
}

#[test]
fn malformed_or_out_of_range_numbers_are_refused() {
    assert_eq!(parse_unsigned("256", 255), None);
    assert_eq!(parse_unsigned("", 255), None);
    assert_eq!(parse_unsigned("+", 255), None);
    assert_eq!(parse_unsigned("-1", 255), None);
    assert_eq!(parse_unsigned(" 1", 255), None);
    assert_eq!(parse_unsigned("1_000", 9999), None);
    assert_eq!(parse_unsigned("18446744073709551616", u64::MAX), None);
}

#[test]
fn typed_reads_follow_each_type_range() {
    assert_eq!(<u8 as TextValue>::read(&text("10")), Some(10u8));
    assert_eq!(<u8 as TextValue>::read(&text("256")), None);
    assert_eq!(<u16 as TextValue>::read(&text("18089")), Some(18089u16));
    assert_eq!(<u64 as TextValue>::read(&text("5000")), Some(5000u64));
    assert_eq!(<usize as TextValue>::read(&text("1048576")), Some(1_048_576usize));
    assert_eq!(<bool as TextValue>::read(&text("true")), Some(true));
    assert_eq!(<bool as TextValue>::read(&text("false")), Some(false));
    assert_eq!(<bool as TextValue>::read(&text("True")), None);
    assert_eq!(<bool as TextValue>::read(&text("1")), None);
}

#[test]
fn addresses_read_as_given() {
    let t = InputText { text: "10.0.0.1".to_string(), ip: Some(HostAddr::V4([10, 0, 0, 1])) };
    assert_eq!(<HostAddr as TextValue>::read(&t), Some(HostAddr::V4([10, 0, 0, 1])));
    assert_eq!(<HostAddr as TextValue>::read(&text("localhost")), None);
}

#[test]
fn loopback_addresses() {
    assert!(HostAddr::localhost().is_loopback());
    assert!(HostAddr::V4([127, 9, 9, 9]).is_loopback());
    assert!(!HostAddr::V4([0, 0, 0, 0]).is_loopback());
    assert!(!HostAddr::V4([10, 0, 0, 1]).is_loopback());
    assert!(HostAddr::V6([0, 0, 0, 0, 0, 0, 0, 1]).is_loopback());
    assert!(!HostAddr::V6([0, 0, 0, 0, 0, 0, 0, 0]).is_loopback());
}
