use doppel::response_analysis::{analyze_response_soft_fails, is_likely_binary, is_structured_data};

#[test]
fn test_soft_fail_case_insensitive() {
    assert!(analyze_response_soft_fails("error occurred").is_some());

    assert!(analyze_response_soft_fails("ERROR OCCURRED").is_some());

    assert!(analyze_response_soft_fails("Access Denied").is_some());
}

#[test]
fn test_soft_fail_keywords() {
    let test_cases = vec![
        ("error", true),
        ("forbidden", true),
        ("unauthorized", true),
        ("permission denied", true),
        ("success", false),
        ("data loaded", false),
    ];

    for (body, should_detect) in test_cases {
        let result = analyze_response_soft_fails(body);
        assert_eq!(
            result.is_some(),
            should_detect,
            "Body '{}' detection mismatch",
            body
        );
    }
}

#[test]
fn test_json_not_flagged_as_binary() {
    assert!(analyze_response_soft_fails(r#"{"key":"value"}"#).is_none());
    assert!(analyze_response_soft_fails(r#"[1,2,3]"#).is_none());
}

#[test]
fn test_xml_detected_as_structured() {
    assert!(is_structured_data("<?xml version='1.0'?><root></root>"));
    assert!(is_structured_data("<html><body>test</body></html>"));
}

#[test]
fn test_binary_detection() {
    assert!(is_likely_binary("data\0binary"));

    assert!(!is_likely_binary("normal text response"));

    let binary_like = "\x01\x02\x03\x04\x05\x06\x07\x08\x09\x0a";
    assert!(is_likely_binary(binary_like));
}

#[test]
fn test_empty_response() {
    assert!(analyze_response_soft_fails("").is_none());
    assert!(!is_likely_binary(""));
    assert!(is_structured_data(""));
}

#[test]
fn test_plain_text_detection() {
    let plain_text = "This is a long plain text response that might be file content. It goes on and on with no structure whatsoever.";
    assert!(analyze_response_soft_fails(plain_text).is_some());
    assert!(!is_structured_data(plain_text));

    let short_text = "success";
    assert!(analyze_response_soft_fails(short_text).is_none());
}

#[test]
fn soft_fail_message_names_first_keyword() {
    assert_eq!(
        analyze_response_soft_fails("request was REJECTED by policy"),
        Some("Soft fail: 'rejected'".to_string())
    );
    assert_eq!(
        analyze_response_soft_fails("an error: access denied"),
        Some("Soft fail: 'error'".to_string())
    );
    assert_eq!(
        analyze_response_soft_fails("data\0binary"),
        Some("Binary or non-text response".to_string())
    );
}

#[test]
fn long_unstructured_text_is_flagged() {
    let long_text = "a ".repeat(40);
    assert_eq!(
        analyze_response_soft_fails(&long_text),
        Some("Possible file or non-JSON response".to_string())
    );
    let long_json = format!("{{\"k\":\"{}\"}}", "a".repeat(80));
    assert!(analyze_response_soft_fails(&long_json).is_none());
}

#[test]
fn whitespace_only_body_is_structured() {
    assert!(is_structured_data("   \n\t  "));
}
