use doppel::json::parse_json;
use doppel::verdict::{
    analyze_404_context, analyze_text_ownership, classify_identity_field,
    contains_identifier_in_identity_fields, decide_verdict, is_error_response, FieldWeight,
    Verdict,
};

// ============================================
// Status code behaviour
// ============================================

#[test]
fn test_verdict_401_unauthorized() {
    let verdict = decide_verdict(401, "", Some("attacker"), Some("victim"));
    assert!(matches!(verdict, Verdict::Secure));
}

#[test]
fn test_verdict_403_forbidden() {
    let verdict = decide_verdict(403, "", Some("attacker"), Some("victim"));
    assert!(matches!(verdict, Verdict::Secure));
}

#[test]
fn test_verdict_400_bad_request() {
    let verdict = decide_verdict(400, "", Some("attacker"), Some("victim"));
    assert!(matches!(verdict, Verdict::Secure));
}

#[test]
fn test_verdict_404_generic() {
    let verdict = decide_verdict(404, "Not found", Some("attacker"), Some("victim"));
    assert!(matches!(verdict, Verdict::Uncertain));
}

#[test]
fn test_verdict_404_with_auth_message() {
    let verdict = decide_verdict(404, "Resource not found: access denied", Some("attacker"), Some("victim"));
    assert!(matches!(verdict, Verdict::Secure));
}

#[test]
fn test_verdict_404_with_unauthorized() {
    let verdict = decide_verdict(404, "404: Unauthorized to view this resource", Some("attacker"), Some("victim"));
    assert!(matches!(verdict, Verdict::Secure));
}

#[test]
fn test_verdict_500_server_error() {
    let verdict = decide_verdict(500, "", Some("attacker"), Some("victim"));
    assert!(matches!(verdict, Verdict::Uncertain));
}

// ============================================
// Identity field detection
// ============================================

#[test]
fn test_verdict_200_with_victim_id() {
    let body = r#"{"id":"victim_123","name":"Victim User"}"#;
    let verdict = decide_verdict(200, body, Some("attacker_456"), Some("victim_123"));
    assert!(matches!(verdict, Verdict::Vulnerable));
}

#[test]
fn test_verdict_200_with_attacker_id() {
    let body = r#"{"id":"attacker_456","name":"Attacker User"}"#;
    let verdict = decide_verdict(200, body, Some("attacker_456"), Some("victim_123"));
    assert!(matches!(verdict, Verdict::Secure));
}

#[test]
fn test_verdict_200_with_user_id() {
    let body = r#"{"userId":"victim_123","name":"Victim"}"#;
    let verdict = decide_verdict(200, body, Some("attacker"), Some("victim_123"));
    assert!(matches!(verdict, Verdict::Vulnerable));
}

#[test]
fn test_verdict_200_with_owner_id() {
    let body = r#"{"ownerId":"victim_123","data":"sensitive"}"#;
    let verdict = decide_verdict(200, body, Some("attacker"), Some("victim_123"));
    assert!(matches!(verdict, Verdict::Vulnerable));
}

#[test]
fn test_verdict_200_with_created_by_metadata() {
    let body = r#"{"postId":"123","created_by":"victim_123","title":"Public Post"}"#;
    let verdict = decide_verdict(200, body, Some("attacker"), Some("victim_123"));
    assert!(matches!(verdict, Verdict::Uncertain));
}

#[test]
fn test_verdict_200_with_critical_id_field() {
    let body = r#"{"id":"victim_123","created_by":"victim_123","title":"Document"}"#;
    let verdict = decide_verdict(200, body, Some("attacker"), Some("victim_123"));
    assert!(matches!(verdict, Verdict::Vulnerable));
}

// ============================================
// Nested JSON
// ============================================

#[test]
fn test_verdict_nested_victim_id() {
    let body = r#"{"data":{"user":{"id":"victim_123"}}}"#;
    let verdict = decide_verdict(200, body, Some("attacker"), Some("victim_123"));
    assert!(matches!(verdict, Verdict::Vulnerable));
}

#[test]
fn test_verdict_array_with_victim_id() {
    let body = r#"{"users":[{"id":"victim_123"},{"id":"other_user"}]}"#;
    let verdict = decide_verdict(200, body, Some("attacker"), Some("victim_123"));
    assert!(matches!(verdict, Verdict::Vulnerable));
}

#[test]
fn test_verdict_deeply_nested() {
    let body = r#"{"level1":{"level2":{"level3":{"userId":"victim_123"}}}}"#;
    let verdict = decide_verdict(200, body, Some("attacker"), Some("victim_123"));
    assert!(matches!(verdict, Verdict::Vulnerable));
}

// ============================================
// False positive prevention
// ============================================

#[test]
fn test_verdict_victim_id_in_name_field() {
    let body = r#"{"id":"attacker_456","name":"victim_123"}"#;
    let verdict = decide_verdict(200, body, Some("attacker_456"), Some("victim_123"));
    assert!(matches!(verdict, Verdict::Secure));
}

#[test]
fn test_verdict_victim_id_in_email_field() {
    let body = r#"{"id":"attacker","email":"victim_123@example.com"}"#;
    let verdict = decide_verdict(200, body, Some("attacker"), Some("victim_123"));
    assert!(matches!(verdict, Verdict::Secure));
}

#[test]
fn test_verdict_victim_id_in_bio() {
    let body = r#"{"id":"attacker","bio":"Hello from victim_123"}"#;
    let verdict = decide_verdict(200, body, Some("attacker"), Some("victim_123"));
    assert!(matches!(verdict, Verdict::Secure));
}

// ============================================
// Error responses
// ============================================

#[test]
fn test_verdict_200_with_error_field() {
    let body = r#"{"error":"Not found","success":false}"#;
    let verdict = decide_verdict(200, body, Some("attacker"), Some("victim"));
    assert!(matches!(verdict, Verdict::Secure));
}

#[test]
fn test_verdict_200_with_success_false() {
    let body = r#"{"success":false,"message":"Access denied"}"#;
    let verdict = decide_verdict(200, body, Some("attacker"), Some("victim"));
    assert!(matches!(verdict, Verdict::Secure));
}

// ============================================
// Text-based fallback
// ============================================

#[test]
fn test_verdict_plain_text_with_victim_id() {
    let body = "User: victim_123\nData: sensitive information";
    let verdict = decide_verdict(200, body, Some("attacker"), Some("victim_123"));
    assert!(matches!(verdict, Verdict::Vulnerable));
}

#[test]
fn test_verdict_plain_text_with_attacker_id() {
    let body = "User: attacker_456\nData: your own information";
    let verdict = decide_verdict(200, body, Some("attacker_456"), Some("victim_123"));
    assert!(matches!(verdict, Verdict::Secure));
}

#[test]
fn test_verdict_plain_text_no_ids() {
    let body = "Generic response with no user identifiers";
    let verdict = decide_verdict(200, body, Some("attacker"), Some("victim"));
    assert!(matches!(verdict, Verdict::Uncertain));
}

// ============================================
// Edge cases
// ============================================

#[test]
fn test_verdict_200_without_ids() {
    let body = r#"{"data":"something"}"#;
    let verdict = decide_verdict(200, body, None, None);
    assert!(matches!(verdict, Verdict::Uncertain));
}

#[test]
fn test_verdict_200_with_only_attacker_id() {
    let body = r#"{"id":"attacker"}"#;
    let verdict = decide_verdict(200, body, Some("attacker"), None);
    assert!(matches!(verdict, Verdict::Uncertain));
}

#[test]
fn test_verdict_empty_body() {
    let verdict = decide_verdict(200, "", Some("attacker"), Some("victim"));
    assert!(matches!(verdict, Verdict::Uncertain));
}

#[test]
fn test_verdict_malformed_json() {
    let body = "{invalid json";
    let verdict = decide_verdict(200, body, Some("attacker"), Some("victim"));
    assert!(matches!(verdict, Verdict::Uncertain));
}

// ============================================
// Real-world scenarios
// ============================================

#[test]
fn test_verdict_user_profile_vulnerable() {
    let body = r#"{
        "userId": "victim_789",
        "firstName": "Jane",
        "lastName": "Doe",
        "email": "jane@example.com",
        "ssn": "123-45-6789"
    }"#;
    let verdict = decide_verdict(200, body, Some("attacker_456"), Some("victim_789"));
    assert!(matches!(verdict, Verdict::Vulnerable));
}

#[test]
fn test_verdict_user_profile_secure() {
    let body = r#"{
        "userId": "attacker_456",
        "firstName": "John",
        "lastName": "Smith",
        "email": "john@example.com"
    }"#;
    let verdict = decide_verdict(200, body, Some("attacker_456"), Some("victim_789"));
    assert!(matches!(verdict, Verdict::Secure));
}

#[test]
fn test_verdict_order_list_vulnerable() {
    let body = r#"{
        "orders": [
            {"orderId": "001", "userId": "victim_789", "amount": 100},
            {"orderId": "002", "userId": "victim_789", "amount": 200}
        ]
    }"#;
    let verdict = decide_verdict(200, body, Some("attacker"), Some("victim_789"));
    assert!(matches!(verdict, Verdict::Vulnerable));
}

#[test]
fn test_verdict_public_data() {
    let body = r#"{
        "postId": "123",
        "title": "Public Blog Post",
        "content": "Everyone can read this"
    }"#;
    let verdict = decide_verdict(200, body, Some("attacker"), Some("victim"));
    assert!(matches!(verdict, Verdict::Uncertain));
}

// ============================================
// Helper functions
// ============================================

#[test]
fn test_is_error_response_with_error_field() {
    let json = parse_json(r#"{"error":"Something went wrong"}"#).unwrap();
    assert!(is_error_response(&json));
}

#[test]
fn test_is_error_response_with_message_field() {
    let json = parse_json(r#"{"message":"Error occurred"}"#).unwrap();
    assert!(is_error_response(&json));
}

#[test]
fn test_is_error_response_with_success_false() {
    let json = parse_json(r#"{"success":false}"#).unwrap();
    assert!(is_error_response(&json));
}

#[test]
fn test_is_not_error_response() {
    let json = parse_json(r#"{"success":true,"data":"valid"}"#).unwrap();
    assert!(!is_error_response(&json));
}

#[test]
fn test_contains_identifier_in_identity_fields() {
    let json = parse_json(r#"{"id":"user_123","name":"Test"}"#).unwrap();
    assert!(contains_identifier_in_identity_fields(&json, "user_123"));
    assert!(!contains_identifier_in_identity_fields(&json, "other_id"));
}

#[test]
fn test_analyze_text_ownership_victim() {
    let verdict = analyze_text_ownership("User victim_123", "attacker", "victim_123");
    assert!(matches!(verdict, Verdict::Vulnerable));
}

#[test]
fn test_analyze_text_ownership_attacker() {
    let verdict = analyze_text_ownership("User attacker_456", "attacker_456", "victim");
    assert!(matches!(verdict, Verdict::Secure));
}

#[test]
fn test_analyze_text_ownership_neither() {
    let verdict = analyze_text_ownership("User other_user", "attacker", "victim");
    assert!(matches!(verdict, Verdict::Uncertain));
}

// ============================================
// Further checks of the decision table
// ============================================

#[test]
fn verdict_401_ignores_body_content() {
    let bodies = [
        "",
        "{\"id\":\"victim_123\"}",
        "victim_123 everywhere",
        "{not json at all",
    ];
    for body in bodies {
        let verdict = decide_verdict(401, body, Some("attacker"), Some("victim_123"));
        assert!(matches!(verdict, Verdict::Secure), "401 must be Secure for body {:?}", body);
    }
}

#[test]
fn verdict_metadata_attacker_is_secure() {
    // The attacker's id in a metadata field alone counts as proper scoping.
    let body = r#"{"postId":"9","created_by":"attacker_1","title":"Note"}"#;
    let verdict = decide_verdict(200, body, Some("attacker_1"), Some("victim_2"));
    assert!(matches!(verdict, Verdict::Secure));
}

#[test]
fn verdict_victim_inside_editable_subtree_not_matched() {
    // Identity fields nested below an editable field are not inspected.
    let body = r#"{"id":"attacker_1","notes":{"id":"victim_2"}}"#;
    let verdict = decide_verdict(200, body, Some("attacker_1"), Some("victim_2"));
    assert!(matches!(verdict, Verdict::Secure));
}

#[test]
fn verdict_array_of_arrays() {
    let body = r#"[[{"uid":"victim_2"}]]"#;
    let verdict = decide_verdict(200, body, Some("attacker_1"), Some("victim_2"));
    assert!(matches!(verdict, Verdict::Vulnerable));
}

#[test]
fn verdict_numbers_do_not_match_identifiers() {
    // A numeric id value is not matched against the identifier text.
    let body = r#"{"id":123}"#;
    let verdict = decide_verdict(200, body, Some("attacker"), Some("123"));
    assert!(matches!(verdict, Verdict::Uncertain));
}

#[test]
fn classify_identity_field_weights() {
    assert_eq!(classify_identity_field("id"), Some(FieldWeight::Critical));
    assert_eq!(classify_identity_field("ownerId"), Some(FieldWeight::Critical));
    assert_eq!(classify_identity_field("created_by"), Some(FieldWeight::Metadata));
    assert_eq!(classify_identity_field("modifiedBy"), Some(FieldWeight::Metadata));
    assert_eq!(classify_identity_field("title"), None);
}

#[test]
fn verdict_as_str_literals() {
    assert_eq!(Verdict::Vulnerable.as_str(), "VULNERABLE");
    assert_eq!(Verdict::Secure.as_str(), "SECURE");
    assert_eq!(Verdict::Uncertain.as_str(), "UNCERTAIN");
}
