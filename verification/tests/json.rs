use github_audit::json::Json;

fn parse(text: &str) -> Json {
    Json::parse(text).unwrap()
}

#[test]
fn parses_every_kind_of_value() {
    let json = parse(r#"{"b": [null, true, -1.50, "x"], "a": {}}"#);
    let expected = Json::Object(vec![
        ("a".to_string(), Json::Object(vec![])),
        (
            "b".to_string(),
            Json::Array(vec![
                Json::Null,
                Json::Bool(true),
                Json::Number("-1.5".to_string()),
                Json::Text("x".to_string()),
            ]),
        ),
    ]);
    assert_eq!(json, expected);
}

#[test]
fn reports_why_a_text_is_not_json() {
    assert_eq!(
        Json::parse("nonsense").unwrap_err(),
        "expected ident at line 1 column 2"
    );
    assert_eq!(
        Json::parse("").unwrap_err(),
        "EOF while parsing a value at line 1 column 0"
    );
}

#[test]
fn takes_over_a_parsed_value() {
    let value: serde_json::Value = serde_json::from_str(r#"{"k": [1, "two"]}"#).unwrap();
    assert_eq!(
        Json::from_value(value),
        Json::Object(vec![(
            "k".to_string(),
            Json::Array(vec![
                Json::Number("1".to_string()),
                Json::Text("two".to_string())
            ])
        )])
    );
}

#[test]
fn finds_fields_of_objects_only() {
    let json = parse(r#"{"name": "audit", "items": [1, 2]}"#);
    assert_eq!(json.get("name").unwrap().as_str(), Some("audit"));
    assert!(json.get("missing").is_none());
    assert!(json.get("items").unwrap().get("name").is_none());
    assert_eq!(json.get("items").unwrap().as_array().unwrap().len(), 2);
    assert!(json.get("items").unwrap().as_str().is_none());
    assert!(json.get("name").unwrap().as_array().is_none());
}

#[test]
fn takes_the_first_of_two_fields_with_one_name() {
    let json = Json::Object(vec![
        ("k".to_string(), Json::Bool(true)),
        ("k".to_string(), Json::Bool(false)),
    ]);
    assert_eq!(json.get("k"), Some(&Json::Bool(true)));
}

#[test]
fn tells_values_apart() {
    let base = parse(r#"{"a": [1, {"b": "c"}]}"#);
    assert!(base == parse(r#" { "a" : [ 1 , { "b" : "c" } ] } "#));
    assert!(base != parse(r#"{"a": [1, {"b": "d"}]}"#));
    assert!(base != parse(r#"{"a": [1, {"x": "c"}]}"#));
    assert!(base != parse(r#"{"a": [1]}"#));
    assert!(base != parse(r#"{"a": [1, {"b": "c"}], "z": null}"#));
    assert!(Json::Null != Json::Bool(false));
    assert!(Json::Number("1".to_string()) != Json::Number("1.0".to_string()));
}

#[test]
fn a_negative_zero_equals_a_zero() {
    assert_eq!(parse("-0.0"), parse("0.0"));
    assert_eq!(parse("[{\"a\": -0}]"), parse("[{\"a\": 0.0}]"));
    assert!(parse("-0.0") != parse("0"));
    let zero: serde_json::Value = serde_json::from_str("0.0").unwrap();
    let negative: serde_json::Value = serde_json::from_str("-0").unwrap();
    assert_eq!(zero, negative);
}

#[test]
fn the_order_of_fields_does_not_count() {
    let entry = |name: &str, value: bool| (name.to_string(), Json::Bool(value));
    let left = Json::Object(vec![entry("a", true), entry("b", false)]);
    let right = Json::Object(vec![entry("b", false), entry("a", true)]);
    assert_eq!(left, right);
    assert_eq!(
        Json::Array(vec![Json::Object(vec![("x".to_string(), left)])]),
        Json::Array(vec![Json::Object(vec![("x".to_string(), right)])])
    );
    let left = Json::Object(vec![entry("a", true), entry("b", false)]);
    assert!(left != Json::Object(vec![entry("b", true), entry("a", false)]));
    assert!(left != Json::Object(vec![entry("a", true)]));
    assert!(Json::Object(vec![entry("a", true)]) != left);
    assert_eq!(
        Json::Object(vec![entry("a", true), entry("a", false)]),
        Json::Object(vec![entry("a", true)])
    );
    let parsed = |text: &str| serde_json::from_str::<serde_json::Value>(text).unwrap();
    assert_eq!(
        parsed(r#"{"a": true, "b": false}"#),
        parsed(r#"{"b": false, "a": true}"#)
    );
}
