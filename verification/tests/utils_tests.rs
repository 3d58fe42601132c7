use rivet::span::TimeSpan;
use rivet::utils::{parse_headers, parse_timeout, OptionError};

#[test]
fn test_parse_headers_valid() {
    let headers = vec![
        "Content-Type: application/json".to_string(),
        "Authorization: Bearer token123".to_string(),
        "Accept: application/json".to_string(),
    ];

    let result = parse_headers(&headers).unwrap();

    assert_eq!(
        result.get("Content-Type"),
        Some(&"application/json".to_string())
    );
    assert_eq!(
        result.get("Authorization"),
        Some(&"Bearer token123".to_string())
    );
    assert_eq!(result.get("Accept"), Some(&"application/json".to_string()));
    assert_eq!(result.len(), 3);
}

#[test]
fn test_parse_headers_with_spaces() {
    let headers = vec!["  Content-Type  :   application/json  ".to_string()];
    let result = parse_headers(&headers).unwrap();
    assert_eq!(
        result.get("Content-Type"),
        Some(&"application/json".to_string())
    );
}

#[test]
fn test_parse_headers_invalid_format() {
    let headers = vec!["InvalidHeader".to_string()];
    let result = parse_headers(&headers);
    assert!(result.is_err());
    assert!(result
        .unwrap_err()
        .message()
        .contains("Invalid header format"));
}

#[test]
fn test_parse_headers_empty() {
    let headers = vec![];
    let result = parse_headers(&headers).unwrap();
    assert!(result.is_empty());
}

#[test]
fn test_parse_headers_colon_in_value() {
    let headers = vec!["X-Custom: value:with:colons".to_string()];
    let result = parse_headers(&headers).unwrap();
    assert_eq!(
        result.get("X-Custom"),
        Some(&"value:with:colons".to_string())
    );
}

#[test]
fn test_parse_timeout_seconds() {
    assert_eq!(parse_timeout("30s").unwrap(), TimeSpan::from_secs(30));
    assert_eq!(parse_timeout("5s").unwrap(), TimeSpan::from_secs(5));
}

#[test]
fn test_parse_timeout_milliseconds() {
    assert_eq!(parse_timeout("500ms").unwrap(), TimeSpan::from_millis(500));
    assert_eq!(
        parse_timeout("1000ms").unwrap(),
        TimeSpan::from_millis(1000)
    );
}

#[test]
fn test_parse_timeout_plain_number() {
    assert_eq!(parse_timeout("15").unwrap(), TimeSpan::from_secs(15));
    assert_eq!(parse_timeout("0").unwrap(), TimeSpan::from_secs(0));
}

#[test]
fn utils_test_parse_timeout_invalid() {
    assert!(parse_timeout("invalid").is_err());
    assert!(parse_timeout("10x").is_err());
    assert!(parse_timeout("").is_err());
}

#[test]
fn test_parse_timeout_edge_cases() {
    assert_eq!(parse_timeout("0s").unwrap(), TimeSpan::from_secs(0));
    assert_eq!(parse_timeout("0ms").unwrap(), TimeSpan::from_millis(0));

    // Test invalid edge cases
    assert!(parse_timeout("s").is_err());
    assert!(parse_timeout("ms").is_err());
}

#[test]
fn parse_timeout_names_each_error() {
    assert!(matches!(
        parse_timeout("ms"),
        Err(OptionError::InvalidTimeout(text)) if text == "ms"
    ));
    assert!(matches!(
        parse_timeout("s"),
        Err(OptionError::InvalidTimeout(text)) if text == "s"
    ));
    assert!(matches!(
        parse_timeout("10x"),
        Err(OptionError::InvalidNumber(text)) if text == "10x"
    ));
    assert!(matches!(
        parse_timeout("abcms"),
        Err(OptionError::InvalidNumber(text)) if text == "abc"
    ));
    assert!(matches!(
        parse_timeout(""),
        Err(OptionError::InvalidNumber(text)) if text.is_empty()
    ));
    assert_eq!(
        parse_timeout("ms").unwrap_err().message(),
        "Invalid timeout format: ms"
    );
}

#[test]
fn parse_timeout_reads_numbers_as_std_does() {
    assert_eq!(parse_timeout("+5s").unwrap(), TimeSpan::from_secs(5));
    assert_eq!(parse_timeout("007").unwrap(), TimeSpan::from_secs(7));
    assert!(parse_timeout("-5s").is_err());
    assert!(parse_timeout("+").is_err());
    assert!(parse_timeout(" 5s").is_err());
    assert!(parse_timeout("5 s").is_err());
    assert_eq!(
        parse_timeout("18446744073709551615s").unwrap(),
        TimeSpan::from_secs(u64::MAX)
    );
    assert!(parse_timeout("18446744073709551616s").is_err());
    assert_eq!(
        parse_timeout("18446744073709551615ms").unwrap(),
        TimeSpan::from_millis(u64::MAX)
    );
    for text in ["+5", "007", "-5", "+", " 5", "18446744073709551615", "18446744073709551616"] {
        let expected = text.parse::<u64>().ok().map(TimeSpan::from_secs);
        assert_eq!(parse_timeout(text).ok(), expected);
    }
}

#[test]
fn time_span_agrees_with_std_duration() {
    for millis in [0u64, 1, 999, 1000, 1001, 123_456_789, u64::MAX] {
        let span = TimeSpan::from_millis(millis);
        let std = std::time::Duration::from_millis(millis);
        assert_eq!(span.as_nanos(), std.as_nanos());
        assert_eq!(span.as_millis(), std.as_millis());
        assert_eq!(span.as_secs(), std.as_secs());
        assert_eq!(span.subsec_nanos(), std.subsec_nanos());
    }
    assert_eq!(TimeSpan::from_nanos(1_500_000_000).as_secs(), 1);
    assert_eq!(TimeSpan::from_nanos(1_500_000_000).subsec_nanos(), 500_000_000);
    assert_eq!(
        TimeSpan::from_secs(3).saturating_sub(&TimeSpan::from_millis(500)),
        TimeSpan::from_millis(2500)
    );
    assert_eq!(
        TimeSpan::from_secs(1).saturating_sub(&TimeSpan::from_secs(2)),
        TimeSpan::zero()
    );
    assert!(TimeSpan::from_millis(999) < TimeSpan::from_secs(1));
    assert!(TimeSpan::from_millis(999).shorter_than(&TimeSpan::from_secs(1)));
}

#[test]
fn parse_headers_later_line_overrides() {
    let headers = vec![
        "A: 1".to_string(),
        "B: 2".to_string(),
        "A: 3".to_string(),
    ];
    let result = parse_headers(&headers).unwrap();
    assert_eq!(result.len(), 2);
    assert_eq!(result.get("A"), Some(&"3".to_string()));
    assert_eq!(result.key_at(0), "A");
    assert_eq!(result.key_at(1), "B");
}

#[test]
fn parse_headers_first_bad_line_decides() {
    let headers = vec![
        "A: 1".to_string(),
        "first bad".to_string(),
        "second bad".to_string(),
    ];
    let error = parse_headers(&headers).unwrap_err();
    assert_eq!(error.message(), "Invalid header format: first bad");
}

#[test]
fn parse_headers_trims_as_std_does() {
    let line = "\u{a0}\tName\u{2003}:\u{3000}value\r\n".to_string();
    let result = parse_headers(&vec![line]).unwrap();
    assert_eq!(result.key_at(0), "Name");
    assert_eq!(result.value_at(0), "value");
    let inner = "a b : c  d ".to_string();
    let result = parse_headers(&vec![inner]).unwrap();
    assert_eq!(result.key_at(0), "a b");
    assert_eq!(result.value_at(0), "c  d");
    let empty = ":".to_string();
    let result = parse_headers(&vec![empty]).unwrap();
    assert_eq!(result.key_at(0), "");
    assert_eq!(result.value_at(0), "");
    for code in 0u32..0x3100 {
        if let Some(c) = char::from_u32(code) {
            let text = format!("{}k{}:v", c, c);
            let result = parse_headers(&vec![text.clone()]).unwrap();
            let (name, _) = text.split_once(':').unwrap();
            assert_eq!(result.key_at(0), name.trim());
        }
    }
}
