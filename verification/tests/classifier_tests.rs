use doppel::classifier::{Confidence, ParamType, ParameterDetector};
use doppel::models::ParameterLocation;

#[test]
fn test_classify_user_id() {
    assert_eq!(ParameterDetector::classify_type("userId"), ParamType::UserId);
    assert_eq!(ParameterDetector::classify_type("user_id"), ParamType::UserId);
    assert_eq!(ParameterDetector::classify_type("uid"), ParamType::UserId);
    assert_eq!(ParameterDetector::classify_type("ownerId"), ParamType::UserId);
}

#[test]
fn test_classify_resource_id() {
    assert_eq!(
        ParameterDetector::classify_type("accountId"),
        ParamType::ResourceId
    );
    assert_eq!(
        ParameterDetector::classify_type("orderId"),
        ParamType::ResourceId
    );
    assert_eq!(
        ParameterDetector::classify_type("transactionId"),
        ParamType::ResourceId
    );
}

#[test]
fn test_classify_generic_id() {
    assert_eq!(ParameterDetector::classify_type("id"), ParamType::ResourceId);
    assert_eq!(
        ParameterDetector::classify_type("postId"),
        ParamType::ResourceId
    );
}

#[test]
fn test_bola_risk_calculation() {
    let param = ParameterDetector::analyze_parameter(
        "userId",
        "/api/users/{userId}",
        "GET",
        ParameterLocation::Path,
        true,
    );
    assert!(param.bola_risk_score >= 80, "userId in GET path should be very high risk");

    let param2 = ParameterDetector::analyze_parameter(
        "name",
        "/api/posts",
        "POST",
        ParameterLocation::Body,
        false,
    );
    assert!(param2.bola_risk_score < 35, "Name in POST body should be low risk (got: {})", param2.bola_risk_score);
}

#[test]
fn test_extract_resources() {
    let resources = ParameterDetector::extract_related_resources("/api/users/{id}/orders/{orderId}");
    assert!(resources.contains(&"users".to_string()));
    assert!(resources.contains(&"orders".to_string()));
    assert!(!resources.contains(&"api".to_string()));
}

#[test]
fn classifier_test_prioritization() {
    let params = vec![
        ParameterDetector::analyze_parameter(
            "name",
            "/api/users/{id}",
            "POST",
            ParameterLocation::Body,
            false,
        ),
        ParameterDetector::analyze_parameter(
            "userId",
            "/api/users/{userId}",
            "GET",
            ParameterLocation::Path,
            true,
        ),
        ParameterDetector::analyze_parameter(
            "email",
            "/api/users",
            "GET",
            ParameterLocation::Query,
            false,
        ),
    ];

    let prioritized = ParameterDetector::prioritize_parameters(params);
    assert_eq!(prioritized[0].name, "userId", "userId should be highest priority");
}

#[test]
fn test_confidence_calculation() {
    let param = ParameterDetector::analyze_parameter(
        "userId",
        "/api/users/{userId}",
        "GET",
        ParameterLocation::Path,
        true,
    );
    assert!(
        matches!(param.confidence, Confidence::VeryHigh | Confidence::High),
        "userId in path should have high confidence"
    );
}

#[test]
fn test_valid_id_formats() {
    assert!(ParameterDetector::is_valid_id_format(
        "550e8400-e29b-41d4-a716-446655440000",
        &ParamType::Uuid
    ));
    assert!(ParameterDetector::is_valid_id_format("12345", &ParamType::NumericId));
    assert!(ParameterDetector::is_valid_id_format(
        "user@example.com",
        &ParamType::Email
    ));
    assert!(ParameterDetector::is_valid_id_format("user_123", &ParamType::UserId));
}

#[test]
fn test_filter_high_risk() {
    let params = vec![
        ParameterDetector::analyze_parameter(
            "userId",
            "/api/users/{userId}",
            "GET",
            ParameterLocation::Path,
            true,
        ),
        ParameterDetector::analyze_parameter(
            "name",
            "/api/users",
            "POST",
            ParameterLocation::Body,
            false,
        ),
    ];

    let high_risk = ParameterDetector::filter_high_risk(params, 50);
    assert_eq!(high_risk.len(), 1);
    assert_eq!(high_risk[0].name, "userId");
}

#[test]
fn risk_score_exact_for_user_id_get_path() {
    // UserId base 40 + GET 25 + path with GET 20 + required 10 + path names
    // "user" 15 sums past the cap, so the score clamps at 100.
    let score = ParameterDetector::calculate_bola_risk(
        "userId",
        &ParamType::UserId,
        "/api/users/{userId}",
        "GET",
        &ParameterLocation::Path,
        true,
    );
    assert_eq!(score, 100);
}

#[test]
fn risk_score_exact_for_plain_name() {
    // Unknown type 5 + POST 10; nothing else applies.
    let score = ParameterDetector::calculate_bola_risk(
        "name",
        &ParamType::Unknown,
        "/api/posts",
        "POST",
        &ParameterLocation::Body,
        false,
    );
    assert_eq!(score, 15);
}

#[test]
fn risk_score_stays_in_range() {
    let names = ["userId", "id", "email", "limit", "x"];
    let methods = ["GET", "DELETE", "PUT", "POST", "OPTIONS", "weird"];
    let locations = [
        ParameterLocation::Path,
        ParameterLocation::Query,
        ParameterLocation::Body,
        ParameterLocation::Header,
    ];
    for name in names {
        for method in methods {
            for location in &locations {
                let t = ParameterDetector::classify_type(name);
                let score = ParameterDetector::calculate_bola_risk(
                    name,
                    &t,
                    "/api/users/{userId}",
                    method,
                    location,
                    true,
                );
                assert!(score <= 100);
            }
        }
    }
}

#[test]
fn confidence_exact_for_user_id_get_path() {
    // UserId base 40 + path location 25 + exact spelling 20 = 85: High.
    let c = ParameterDetector::calculate_confidence(
        "userId",
        &ParamType::UserId,
        "/api/users/{userId}",
        &ParameterLocation::Path,
    );
    assert_eq!(c, Confidence::High);
    assert_eq!(c.as_score(), 80);
}

#[test]
fn confidence_band_scores() {
    assert_eq!(Confidence::VeryHigh.as_score(), 95);
    assert_eq!(Confidence::High.as_score(), 80);
    assert_eq!(Confidence::Medium.as_score(), 55);
    assert_eq!(Confidence::Low.as_score(), 30);
    assert_eq!(Confidence::VeryLow.as_score(), 10);
}

#[test]
fn classify_more_types() {
    assert_eq!(ParameterDetector::classify_type("resourceUuid"), ParamType::Uuid);
    assert_eq!(ParameterDetector::classify_type("item2id"), ParamType::NumericId);
    assert_eq!(ParameterDetector::classify_type("numid"), ParamType::NumericId);
    assert_eq!(ParameterDetector::classify_type("email"), ParamType::Email);
    assert_eq!(ParameterDetector::classify_type("created_at"), ParamType::DateTime);
    assert_eq!(ParameterDetector::classify_type("startTime"), ParamType::DateTime);
    assert_eq!(ParameterDetector::classify_type("is_active"), ParamType::Boolean);
    assert_eq!(ParameterDetector::classify_type("feature_flag"), ParamType::Boolean);
    assert_eq!(ParameterDetector::classify_type("whatever"), ParamType::Unknown);
}

#[test]
fn invalid_id_formats_rejected() {
    assert!(!ParameterDetector::is_valid_id_format(
        "550e8400e29b41d4a716446655440000",
        &ParamType::Uuid
    ));
    assert!(!ParameterDetector::is_valid_id_format("12a45", &ParamType::NumericId));
    assert!(!ParameterDetector::is_valid_id_format("user@example", &ParamType::Email));
    assert!(!ParameterDetector::is_valid_id_format("not an id", &ParamType::UserId));
    assert!(!ParameterDetector::is_valid_id_format("", &ParamType::ResourceId));
    assert!(!ParameterDetector::is_valid_id_format("", &ParamType::Unknown));
}

#[test]
fn extract_resources_removes_duplicates_and_reserved() {
    let resources =
        ParameterDetector::extract_related_resources("/api/users/{a}/users/{b}/private/{c}");
    assert_eq!(resources, vec!["users".to_string()]);
}

#[test]
fn extract_resources_requires_placeholder_or_end() {
    let resources = ParameterDetector::extract_related_resources("/api/users/list");
    assert_eq!(resources, vec!["list".to_string()]);
}
