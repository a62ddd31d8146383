use doppel::json::{lookup_field, parse_json, substitute_params, JsonValue};

fn expect_string<'a>(v: &'a JsonValue) -> &'a str {
    match v {
        JsonValue::String(s) => s.as_str(),
        _ => panic!("expected a string value"),
    }
}

#[test]
fn substitute_simple_key() {
    let v = parse_json(r#"{ "userId": "OLD", "nested": { "id": "OLD" } }"#).unwrap();
    let map = vec![
        ("userId".to_string(), "NEW_USER".to_string()),
        ("id".to_string(), "NEW_ID".to_string()),
    ];
    let out = substitute_params(v, &map);
    match &out {
        JsonValue::Object(fs) => {
            assert_eq!(expect_string(lookup_field(fs, "userId").unwrap()), "NEW_USER");
            match lookup_field(fs, "nested").unwrap() {
                JsonValue::Object(inner) => {
                    assert_eq!(expect_string(lookup_field(inner, "id").unwrap()), "NEW_ID");
                },
                _ => panic!("nested should stay an object"),
            }
        },
        _ => panic!("result should be an object"),
    }
}

#[test]
fn substitute_inside_arrays_and_leaves_others() {
    let v = parse_json(r#"{"items":[{"id":"a"},{"id":"b"}],"count":2,"label":"keep"}"#).unwrap();
    let map = vec![("id".to_string(), "X".to_string())];
    let out = substitute_params(v, &map);
    match &out {
        JsonValue::Object(fs) => {
            assert_eq!(expect_string(lookup_field(fs, "label").unwrap()), "keep");
            assert!(matches!(lookup_field(fs, "count").unwrap(), JsonValue::Number));
            match lookup_field(fs, "items").unwrap() {
                JsonValue::Array(elems) => {
                    assert_eq!(elems.len(), 2);
                    for e in elems {
                        match e {
                            JsonValue::Object(inner) => {
                                assert_eq!(expect_string(lookup_field(inner, "id").unwrap()), "X");
                            },
                            _ => panic!("array elements should stay objects"),
                        }
                    }
                },
                _ => panic!("items should stay an array"),
            }
        },
        _ => panic!("result should be an object"),
    }
}
