use rivet::grpc::{invalid_call_text, is_service_method, split_service_method};
use rivet::span::TimeSpan;
use rivet::utils::parse_timeout;

#[test]
fn test_parse_timeout_formats() {
    assert_eq!(parse_timeout("30s").unwrap(), TimeSpan::from_secs(30));
    assert_eq!(
        parse_timeout("5000ms").unwrap(),
        TimeSpan::from_millis(5000)
    );
    assert_eq!(parse_timeout("10").unwrap(), TimeSpan::from_secs(10));
    assert_eq!(parse_timeout("0s").unwrap(), TimeSpan::from_secs(0));
    assert_eq!(parse_timeout("1ms").unwrap(), TimeSpan::from_millis(1));
}

#[test]
fn grpc_tests_test_parse_timeout_invalid() {
    assert!(parse_timeout("invalid").is_err());
    assert!(parse_timeout("").is_err());
    assert!(parse_timeout("30x").is_err());
}

#[test]
fn test_service_method_format_validation() {
    let validate_format = |service_method: &str| is_service_method(service_method);

    // Valid formats
    let valid_calls = vec![
        "Users/GetUser",
        "Products/ListProducts",
        "Auth/Login",
        "Service.Name/Method_Name",
    ];

    for call in valid_calls {
        assert!(validate_format(call), "Expected '{}' to be valid", call);
    }

    // Invalid formats
    let invalid_calls = vec![
        "InvalidFormat",
        "Too/Many/Slashes",
        "/MissingService",
        "MissingMethod/",
        "",
    ];

    for call in invalid_calls {
        assert!(!validate_format(call), "Expected '{}' to be invalid", call);
    }
}

#[test]
fn test_validate_service_method_format() {
    let invalid_formats = vec![
        "InvalidFormat",
        "Too/Many/Slashes",
        "/MissingService",
        "MissingMethod/",
        "",
    ];

    let validate_format = |service_method: &str| is_service_method(service_method);

    for format in invalid_formats {
        assert!(!validate_format(format), "Expected '{}' to be invalid", format);
    }

    // Valid formats
    let valid_formats = vec!["Users/GetUser", "Products/ListProducts", "Auth/Login"];

    for format in valid_formats {
        assert!(validate_format(format), "Expected '{}' to be valid", format);
    }
}

#[test]
fn test_timeout_format_validation() {
    let valid_timeouts = vec!["1s", "1000ms", "5", "10s"];
    for timeout in valid_timeouts {
        let result = parse_timeout(timeout);
        assert!(
            result.is_ok(),
            "Timeout format '{}' should be valid",
            timeout
        );
    }

    let invalid_timeouts = vec!["invalid", "", "10x"];
    for timeout in invalid_timeouts {
        let result = parse_timeout(timeout);
        assert!(
            result.is_err(),
            "Timeout format '{}' should be invalid",
            timeout
        );
    }
}

#[test]
fn split_service_method_gives_both_parts() {
    assert_eq!(
        split_service_method("Users/GetUser"),
        Some(("Users".to_string(), "GetUser".to_string()))
    );
    assert_eq!(
        split_service_method("a/b"),
        Some(("a".to_string(), "b".to_string()))
    );
    assert_eq!(split_service_method("/"), None);
    assert_eq!(split_service_method("a//b"), None);
    assert_eq!(split_service_method("a/b/"), None);
    assert_eq!(
        invalid_call_text(),
        "Invalid service/method format. Expected 'Service/Method'"
    );
}
