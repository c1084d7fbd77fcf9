use headr::get_args;

fn tokens(items: &[&str]) -> Vec<String> {
    let mut v: Vec<String> = Vec::new();
    for it in items {
        v.push(it.to_string());
    }
    v
}

#[test]
fn defaults_apply_with_no_arguments() {
    let config = get_args(&tokens(&[])).unwrap();
    assert_eq!(config.files(), &vec!["-".to_string()]);
    assert_eq!(config.lines(), 10);
    assert_eq!(config.bytes(), None);
}

#[test]
fn line_option_short_form() {
    let config = get_args(&tokens(&["-n", "3", "a.txt"])).unwrap();
    assert_eq!(config.files(), &vec!["a.txt".to_string()]);
    assert_eq!(config.lines(), 3);
    assert_eq!(config.bytes(), None);
}

#[test]
fn line_option_long_form() {
    let config = get_args(&tokens(&["--lines", "7"])).unwrap();
    assert_eq!(config.files(), &vec!["-".to_string()]);
    assert_eq!(config.lines(), 7);
}

#[test]
fn byte_option_keeps_default_lines() {
    let config = get_args(&tokens(&["-c", "5", "f"])).unwrap();
    assert_eq!(config.files(), &vec!["f".to_string()]);
    assert_eq!(config.lines(), 10);
    assert_eq!(config.bytes(), Some(5));
}

#[test]
fn byte_option_long_form() {
    let config = get_args(&tokens(&["--bytes", "12", "x", "y"])).unwrap();
    assert_eq!(config.files(), &vec!["x".to_string(), "y".to_string()]);
    assert_eq!(config.bytes(), Some(12));
}

#[test]
fn plus_prefixed_count_is_accepted() {
    let config = get_args(&tokens(&["-n", "+3", "a.txt"])).unwrap();
    assert_eq!(config.lines(), 3);
    let config = get_args(&tokens(&["-c", "+7", "a.txt"])).unwrap();
    assert_eq!(config.bytes(), Some(7));
}

#[test]
fn conflicting_options_are_rejected() {
    let err = get_args(&tokens(&["-n", "5", "-c", "10"])).unwrap_err();
    assert_eq!(err, "the option -n cannot be used with -c");
}

#[test]
fn conflict_detected_before_numeric_validation() {
    let err = get_args(&tokens(&["-n", "foo", "-c", "bar"])).unwrap_err();
    assert_eq!(err, "the option -n cannot be used with -c");
}

#[test]
fn bad_line_count_echoes_literal() {
    let err = get_args(&tokens(&["-n", "foo"])).unwrap_err();
    assert_eq!(err, "illegal line count -- foo");
    assert!(err.contains("foo"));
}

#[test]
fn zero_line_count_echoes_literal() {
    let err = get_args(&tokens(&["-n", "0"])).unwrap_err();
    assert_eq!(err, "illegal line count -- 0");
    assert!(err.contains("0"));
}

#[test]
fn bad_byte_count_echoes_literal() {
    let err = get_args(&tokens(&["-c", "bar", "f"])).unwrap_err();
    assert_eq!(err, "illegal byte count -- bar");
}

#[test]
fn unexpected_option_is_rejected() {
    let err = get_args(&tokens(&["-x", "f"])).unwrap_err();
    assert_eq!(err, "unexpected argument -x");
}

#[test]
fn missing_value_is_rejected() {
    let err = get_args(&tokens(&["-n"])).unwrap_err();
    assert_eq!(err, "the option -n needs a value");
    let err = get_args(&tokens(&["f", "-c"])).unwrap_err();
    assert_eq!(err, "the option -c needs a value");
}

#[test]
fn repeated_option_is_rejected() {
    let err = get_args(&tokens(&["-n", "1", "-n", "2"])).unwrap_err();
    assert_eq!(err, "the option -n cannot be used more than once");
    let err = get_args(&tokens(&["-c", "1", "--bytes", "2"])).unwrap_err();
    assert_eq!(err, "the option -c cannot be used more than once");
}

#[test]
fn lone_dash_is_a_source() {
    let config = get_args(&tokens(&["-", "a.txt"])).unwrap();
    assert_eq!(config.files(), &vec!["-".to_string(), "a.txt".to_string()]);
}
