use svd2pac::model::Access;
use svd2pac::parse::{parse_access, parse_integer};

#[test]
fn integer_literals() {
    assert_eq!(parse_integer("0"), Some(0));
    assert_eq!(parse_integer("4096"), Some(4096));
    assert_eq!(parse_integer("0x1000"), Some(0x1000));
    assert_eq!(parse_integer("0XdeadBEEF"), Some(0xDEAD_BEEF));
    assert_eq!(parse_integer("#0101"), Some(5));
    assert_eq!(parse_integer("18446744073709551615"), Some(u64::MAX));
    assert_eq!(parse_integer("0xffffffffffffffff"), Some(u64::MAX));
}

#[test]
fn malformed_integer_literals() {
    assert_eq!(parse_integer(""), None);
    assert_eq!(parse_integer("0x"), None);
    assert_eq!(parse_integer("#"), None);
    assert_eq!(parse_integer("12a"), None);
    assert_eq!(parse_integer("#012"), None);
    assert_eq!(parse_integer("0xfg"), None);
    assert_eq!(parse_integer("18446744073709551616"), None);
    assert_eq!(parse_integer("0x10000000000000000"), None);
}

#[test]
fn access_values() {
    assert_eq!(parse_access(&"read-only".to_string()), Some(Access::ReadOnly));
    assert_eq!(parse_access(&"write-only".to_string()), Some(Access::WriteOnly));
    assert_eq!(parse_access(&"writeOnce".to_string()), Some(Access::WriteOnly));
    assert_eq!(parse_access(&"read-write".to_string()), Some(Access::ReadWrite));
    assert_eq!(parse_access(&"read-writeOnce".to_string()), Some(Access::ReadWrite));
    assert_eq!(parse_access(&"rw".to_string()), None);
    assert_eq!(parse_access(&"".to_string()), None);
}
