use headr::parse_positive_int;

#[test]
fn test_parse_positive_int() {
    let res = parse_positive_int("3");
    assert!(res.is_ok());
    assert_eq!(res.unwrap(), 3);

    let res = parse_positive_int("foo");
    assert!(res.is_err());
    assert_eq!(res.unwrap_err().to_string(), "foo".to_string());

    let res = parse_positive_int("0");
    assert!(res.is_err());
    assert_eq!(res.unwrap_err().to_string(), "0".to_string());
}

#[test]
fn parse_accepts_leading_zeros() {
    let res = parse_positive_int("007");
    assert!(res.is_ok());
    assert_eq!(res.unwrap(), 7);
}

#[test]
fn parse_rejects_empty_string() {
    let res = parse_positive_int("");
    assert!(res.is_err());
    assert_eq!(res.unwrap_err(), "".to_string());
}

#[test]
fn parse_accepts_leading_plus() {
    let res = parse_positive_int("+3");
    assert!(res.is_ok());
    assert_eq!(res.unwrap(), 3);
    assert_eq!(parse_positive_int("+10").unwrap(), 10);
}

#[test]
fn parse_rejects_bare_or_repeated_plus_and_plus_zero() {
    assert_eq!(parse_positive_int("+").unwrap_err(), "+".to_string());
    assert_eq!(parse_positive_int("+0").unwrap_err(), "+0".to_string());
    assert_eq!(parse_positive_int("++3").unwrap_err(), "++3".to_string());
}

#[test]
fn parse_rejects_minus_and_spaces() {
    assert_eq!(parse_positive_int("-3").unwrap_err(), "-3".to_string());
    assert_eq!(parse_positive_int(" 3").unwrap_err(), " 3".to_string());
    assert_eq!(parse_positive_int("3 ").unwrap_err(), "3 ".to_string());
}

#[test]
fn parse_rejects_huge_value() {
    let res = parse_positive_int("123456789012345678901234567890");
    assert!(res.is_err());
    assert_eq!(res.unwrap_err(), "123456789012345678901234567890".to_string());
}
