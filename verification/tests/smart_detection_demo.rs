use doppel::classifier::ParameterDetector;
use doppel::models::{Endpoint, Method, ParameterLocation};
use doppel::scanner::{analyze_endpoint_parameters, get_high_risk_params};

#[test]
fn demo_smart_detection_on_realistic_api() {
    println!("\n=== Smart Parameter Detection Demo ===\n");

    let endpoints = vec![
        Endpoint::new(
            Method::GET,
            "/api/v1/users/{userId}".to_string(),
            Some("Get user profile".to_string()),
            vec!["userId".to_string()],
        ),
        Endpoint::new(
            Method::GET,
            "/api/v1/accounts/{accountId}".to_string(),
            Some("Get account".to_string()),
            vec!["accountId".to_string()],
        ),
        Endpoint::new(
            Method::POST,
            "/api/v1/orders".to_string(),
            Some("Create order".to_string()),
            vec!["body.userId".to_string(), "body.items".to_string()],
        ),
        Endpoint::new(
            Method::GET,
            "/api/v1/search".to_string(),
            Some("Search".to_string()),
            vec!["query".to_string(), "limit".to_string(), "offset".to_string()],
        ),
        Endpoint::new(
            Method::DELETE,
            "/api/v1/users/{id}".to_string(),
            Some("Delete user".to_string()),
            vec!["id".to_string()],
        ),
    ];

    let mut total_params = 0;
    let mut high_risk_params = 0;

    for endpoint in &endpoints {
        let all_params = analyze_endpoint_parameters(endpoint);
        let high_risk = get_high_risk_params(endpoint, 50);

        total_params += all_params.len();
        high_risk_params += high_risk.len();

        println!("{} {} - {} parameters", endpoint.method.as_str(), endpoint.path, all_params.len());

        for param in &all_params {
            let marker = if param.bola_risk_score >= 50 { "✓ TESTING" } else { "✗ SKIPPING" };
            println!(
                "  {} {} (risk: {}, type: {:?}, confidence: {:?})",
                marker, param.name, param.bola_risk_score, param.param_type, param.confidence
            );
        }
        println!();
    }

    println!("=== Summary ===");
    println!("Total parameters: {}", total_params);
    println!("High-risk (tested): {}", high_risk_params);
    println!("Low-risk (skipped): {}", total_params - high_risk_params);
    println!("Efficiency gain: {:.1}% reduction in tests\n",
             (total_params - high_risk_params) as f32 / total_params as f32 * 100.0);

    assert!(total_params > 0, "Should detect parameters");
    assert!(high_risk_params > 0, "Should identify high-risk parameters");
    assert!(high_risk_params < total_params, "Should filter out some low-risk parameters");

    let user_endpoint = &endpoints[0];
    let user_params = analyze_endpoint_parameters(user_endpoint);
    assert_eq!(user_params.len(), 1);
    assert!(user_params[0].bola_risk_score >= 80, "userId in GET /users should be very high risk");

    let search_endpoint = &endpoints[3];
    let search_params = analyze_endpoint_parameters(search_endpoint);
    assert_eq!(search_params.len(), 3);
    for param in &search_params {
        assert!(param.bola_risk_score < 50, "{} should be low risk", param.name);
    }
}

#[test]
fn demo_confidence_levels() {
    println!("\n=== Confidence Level Examples ===\n");

    let test_cases = vec![
        ("userId", "/api/users/{userId}", "User ID in users endpoint"),
        ("user_id", "/api/profiles/{user_id}", "Snake case user ID"),
        ("accountId", "/api/accounts/{accountId}", "Account ID in accounts endpoint"),
        ("id", "/api/users/{id}", "Generic ID in specific context"),
        ("postId", "/api/blog/posts/{postId}", "Post ID in posts endpoint"),
        ("uuid", "/api/resources/{uuid}", "UUID without context"),
        ("identifier", "/api/data/{identifier}", "Generic identifier"),
    ];

    for (name, path, description) in test_cases {
        let param = ParameterDetector::analyze_parameter(
            name,
            path,
            "GET",
            ParameterLocation::Path,
            true,
        );

        println!(
            "{:12} → Confidence: {:8?} (score: {}) - {}",
            name, param.confidence, param.confidence.as_score(), description
        );
    }
    println!();
}
