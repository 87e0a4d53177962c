use textstream::headr::{get_args, parse_positive_int, BoundMode, DEFAULT_LINES};
use textstream::report::ConfigurationError;
use textstream::text::parse_numeral;

#[test]
fn test_parse_positive_int() {
    // 3 is an OK integer
    let res = parse_positive_int("3");
    assert!(res.is_ok());
    assert_eq!(res.unwrap(), 3);
    // Any string is an error
    let res = parse_positive_int("foo");
    assert!(res.is_err());
    assert_eq!(res.unwrap_err().to_string(), "foo".to_string());
    // A zero is an error
    let res = parse_positive_int("0");
    assert!(res.is_err());
    assert_eq!(res.unwrap_err().to_string(), "0".to_string());
}

#[test]
fn parse_positive_int_agrees_with_std_on_edge_cases() {
    let cases = vec![
        "", "+", "-", "+3", "-3", "03", "000", "+0", "3 ", " 3", "3a", "a3", "1_000", "٣", "３",
        "12345", "++3", "3+", "0x10", "1e3", "18446744073709551615", "18446744073709551616",
        "99999999999999999999999", "4294967295", "4294967296",
    ];
    for case in cases {
        let expected = match case.parse::<usize>() {
            Ok(n) if n > 0 => Ok(n),
            _ => Err(case.to_string()),
        };
        assert_eq!(parse_positive_int(case), expected, "input {:?}", case);
    }
}

#[test]
fn parse_numeral_reads_decimal_numbers() {
    assert_eq!(parse_numeral(b"0"), Some(0));
    assert_eq!(parse_numeral(b"+42"), Some(42));
    assert_eq!(parse_numeral(b"007"), Some(7));
    assert_eq!(parse_numeral(b""), None);
    assert_eq!(parse_numeral(b"+"), None);
    assert_eq!(parse_numeral(b"4 2"), None);
    assert_eq!(parse_numeral(usize::MAX.to_string().as_bytes()), Some(usize::MAX));
    let too_large = format!("{}0", usize::MAX);
    assert_eq!(parse_numeral(too_large.as_bytes()), None);
}

#[test]
fn get_args_builds_the_configuration() {
    let config = get_args(vec!["a".to_string(), "-".to_string()], Some("3"), None).unwrap();
    assert_eq!(config.files, vec!["a".to_string(), "-".to_string()]);
    assert_eq!(config.lines, 3);
    assert_eq!(config.bytes, None);
    assert_eq!(config.mode(), Ok(BoundMode::Lines(3)));

    let config = get_args(vec!["a".to_string()], Some("10"), Some("7")).unwrap();
    assert_eq!(config.lines, 10);
    assert_eq!(config.bytes, Some(7));
    assert_eq!(config.mode(), Ok(BoundMode::Bytes(7)));
}

#[test]
fn get_args_falls_back_to_ten_lines() {
    let config = get_args(vec!["-".to_string()], None, None).unwrap();
    assert_eq!(config.lines, 10);
    assert_eq!(config.lines, DEFAULT_LINES);
    assert_eq!(config.bytes, None);
    assert_eq!(config.mode(), Ok(BoundMode::Lines(10)));
}

#[test]
fn get_args_complains_about_an_illegal_line_count() {
    let err = get_args(vec!["a".to_string()], Some("foo"), None).unwrap_err();
    assert_eq!(err, "illegal line count -- foo");
    let err = get_args(vec!["a".to_string()], Some("0"), Some("bar")).unwrap_err();
    assert_eq!(err, "illegal line count -- 0");
}

#[test]
fn get_args_complains_about_an_illegal_byte_count() {
    let err = get_args(vec!["a".to_string()], Some("10"), Some("bar")).unwrap_err();
    assert_eq!(err, "illegal byte count -- bar");
    let err = get_args(vec!["a".to_string()], None, Some("0")).unwrap_err();
    assert_eq!(err, "illegal byte count -- 0");
}

#[test]
fn from_limits_takes_the_limit_that_is_given() {
    assert_eq!(BoundMode::from_limits(Some(2), None), Ok(BoundMode::Lines(2)));
    assert_eq!(BoundMode::from_limits(None, Some(5)), Ok(BoundMode::Bytes(5)));
    assert_eq!(BoundMode::from_limits(None, None), Ok(BoundMode::Lines(10)));
}

#[test]
fn from_limits_refuses_impossible_limits() {
    assert_eq!(
        BoundMode::from_limits(Some(2), Some(5)),
        Err(ConfigurationError::ConflictingLimits)
    );
    assert_eq!(BoundMode::from_limits(Some(0), None), Err(ConfigurationError::ZeroLineLimit));
    assert_eq!(BoundMode::from_limits(None, Some(0)), Err(ConfigurationError::ZeroByteLimit));
}
