use doppel::mutator::{count_digits, extract_base_and_number, generate_adjacent_ids, mutate_param};

#[test]
fn test_extract_base_and_number_underscore() {
    let result = extract_base_and_number("user_123");
    assert_eq!(result, Some(("user_", 123)));
}

#[test]
fn test_extract_base_and_number_hyphen() {
    let result = extract_base_and_number("id-456");
    assert_eq!(result, Some(("id-", 456)));
}

#[test]
fn test_extract_base_and_number_pure_numeric() {
    let result = extract_base_and_number("789");
    assert_eq!(result, Some(("", 789)));
}

#[test]
fn test_extract_base_and_number_no_number() {
    let result = extract_base_and_number("username");
    assert_eq!(result, None);
}

#[test]
fn test_extract_base_and_number_leading_zeros() {
    let result = extract_base_and_number("user_007");
    assert_eq!(result, Some(("user_", 7)));
}

#[test]
fn test_generate_adjacent_ids_basic() {
    let result = generate_adjacent_ids("user_123", 2);
    assert!(result.is_some());
    let adjacent = result.unwrap();
    assert!(adjacent.contains(&"user_121".to_string()));
    assert!(adjacent.contains(&"user_122".to_string()));
    assert!(adjacent.contains(&"user_124".to_string()));
    assert!(adjacent.contains(&"user_125".to_string()));
    assert!(!adjacent.contains(&"user_123".to_string()));
}

#[test]
fn test_generate_adjacent_ids_pure_number() {
    let result = generate_adjacent_ids("456", 1);
    assert!(result.is_some());
    let adjacent = result.unwrap();
    assert!(adjacent.contains(&"455".to_string()));
    assert!(adjacent.contains(&"457".to_string()));
}

#[test]
fn test_generate_adjacent_ids_boundary() {
    let result = generate_adjacent_ids("user_1", 2);
    assert!(result.is_some());
    let adjacent = result.unwrap();
    assert!(!adjacent.contains(&"user_-1".to_string()));
    assert!(adjacent.contains(&"user_2".to_string()));
    assert!(adjacent.contains(&"user_3".to_string()));
}

#[test]
fn test_generate_adjacent_ids_no_number() {
    let result = generate_adjacent_ids("username", 2);
    assert!(result.is_none());
}

#[test]
fn test_mutate_param_with_numeric_id() {
    let mutations = mutate_param("user_123");

    assert!(mutations.contains(&"user_123".to_string()));

    assert!(mutations.contains(&"user_121".to_string()));
    assert!(mutations.contains(&"user_122".to_string()));
    assert!(mutations.contains(&"user_124".to_string()));
    assert!(mutations.contains(&"user_125".to_string()));

    assert!(mutations.contains(&"0".to_string()));
    assert!(mutations.contains(&"1".to_string()));
    assert!(mutations.contains(&"admin".to_string()));
    assert!(mutations.contains(&"-1".to_string()));
    assert!(mutations.contains(&"".to_string()));
    assert!(mutations.contains(&"null".to_string()));
}

#[test]
fn test_mutate_param_without_number() {
    let mutations = mutate_param("username");

    assert!(mutations.contains(&"username".to_string()));

    assert!(mutations.contains(&"0".to_string()));
    assert!(mutations.contains(&"1".to_string()));
    assert!(mutations.contains(&"admin".to_string()));
}

#[test]
fn test_mutate_param_pure_number() {
    let mutations = mutate_param("456");

    assert!(mutations.contains(&"456".to_string()));

    assert!(mutations.contains(&"455".to_string()));
    assert!(mutations.contains(&"457".to_string()));
}

#[test]
fn test_mutate_param_no_duplicates() {
    let mutations = mutate_param("user_2");

    let count_ones = mutations.iter().filter(|m| *m == "1").count();
    assert_eq!(count_ones, 1, "Should have exactly one '1' mutation");
}

#[test]
fn test_count_digits() {
    assert_eq!(count_digits(0), 1);
    assert_eq!(count_digits(5), 1);
    assert_eq!(count_digits(42), 2);
    assert_eq!(count_digits(123), 3);
    assert_eq!(count_digits(9999), 4);
}

#[test]
fn test_mutate_param_empty_string() {
    let mutations = mutate_param("");
    assert!(mutations.contains(&"".to_string()));
}

#[test]
fn test_mutate_param_uuid_format() {
    let mutations = mutate_param("550e8400-e29b-41d4-a716-446655440000");
    assert!(mutations.contains(&"550e8400-e29b-41d4-a716-446655440000".to_string()));
    assert!(mutations.contains(&"0".to_string()));
    assert!(mutations.contains(&"admin".to_string()));
}

#[test]
fn adjacent_ids_exact_window() {
    let adjacent = generate_adjacent_ids("user_123", 2).unwrap();
    assert_eq!(
        adjacent,
        vec![
            "user_121".to_string(),
            "user_122".to_string(),
            "user_124".to_string(),
            "user_125".to_string(),
        ]
    );
}

#[test]
fn adjacent_ids_preserve_leading_zeros() {
    let adjacent = generate_adjacent_ids("user_007", 2).unwrap();
    assert_eq!(
        adjacent,
        vec![
            "user_005".to_string(),
            "user_006".to_string(),
            "user_008".to_string(),
            "user_009".to_string(),
        ]
    );
}

#[test]
fn adjacent_ids_no_padding_without_leading_zero() {
    let adjacent = generate_adjacent_ids("item99", 1).unwrap();
    assert_eq!(adjacent, vec!["item98".to_string(), "item100".to_string()]);
}

#[test]
fn mutate_param_exact_sorted_output() {
    let mutations = mutate_param("456");
    assert_eq!(
        mutations,
        vec![
            "".to_string(),
            "-1".to_string(),
            "0".to_string(),
            "1".to_string(),
            "454".to_string(),
            "455".to_string(),
            "456".to_string(),
            "457".to_string(),
            "458".to_string(),
            "admin".to_string(),
            "null".to_string(),
        ]
    );
}

#[test]
fn mutate_param_empty_seed_exact() {
    let mutations = mutate_param("");
    assert_eq!(
        mutations,
        vec![
            "".to_string(),
            "-1".to_string(),
            "0".to_string(),
            "1".to_string(),
            "admin".to_string(),
            "null".to_string(),
        ]
    );
}

#[test]
fn mutate_param_seed_always_kept() {
    for seed in ["a", "42", "user_1", "x-0009", "", "null", "0"] {
        let mutations = mutate_param(seed);
        assert!(mutations.contains(&seed.to_string()), "seed {:?} missing", seed);
        for i in 0..mutations.len() {
            for j in i + 1..mutations.len() {
                assert_ne!(mutations[i], mutations[j], "duplicate for seed {:?}", seed);
            }
        }
    }
}
