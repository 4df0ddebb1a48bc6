use store::error::StoreError;
use store::input::{normalize, parse_data_input, split_pair_exec, FieldValue, StructuredData};
use store::payload::Payload;

fn tokens(items: &[&str]) -> Vec<String> {
    items.iter().map(|s| s.to_string()).collect()
}

fn json(text: &str) -> serde_json::Value {
    serde_json::from_str(text).unwrap()
}

fn bad_token(r: Result<serde_json::Value, StoreError>) -> String {
    match r {
        Err(StoreError::InputFormat { token }) => token,
        other => panic!("expected an input format error, got {:?}", other),
    }
}

#[test]
fn single_json_object_is_kept() {
    let v = parse_data_input(&tokens(&[r#"{"a":1}"#])).unwrap();
    assert_eq!(v, json(r#"{"a":1}"#));
}

#[test]
fn single_json_number_is_kept() {
    let v = parse_data_input(&tokens(&["42"])).unwrap();
    assert_eq!(v, serde_json::Value::from(42));
}

#[test]
fn single_json_string_is_kept() {
    let v = parse_data_input(&tokens(&[r#""x""#])).unwrap();
    assert_eq!(v, serde_json::Value::String("x".to_string()));
}

#[test]
fn single_json_array_is_kept() {
    let v = parse_data_input(&tokens(&["[1, 2, 3]"])).unwrap();
    assert_eq!(v, json("[1,2,3]"));
}

#[test]
fn single_json_token_normalizes_to_json() {
    match normalize(&tokens(&["true"])).unwrap() {
        StructuredData::Json(t) => assert_eq!(t, "true"),
        other => panic!("expected JSON, got {:?}", other),
    }
}

#[test]
fn several_pairs_make_an_object() {
    let v = parse_data_input(&tokens(&["a=1", "b=hello"])).unwrap();
    assert_eq!(v, json(r#"{"a":1,"b":"hello"}"#));
}

#[test]
fn pair_values_parse_as_json_where_they_can() {
    let v = parse_data_input(&tokens(&["n=null", "t=true", "l=[1,2]", "o={\"x\":1}", "s=\"q\""]))
        .unwrap();
    assert_eq!(v, json(r#"{"n":null,"t":true,"l":[1,2],"o":{"x":1},"s":"q"}"#));
}

#[test]
fn last_duplicate_key_wins() {
    let v = parse_data_input(&tokens(&["a=1", "b=2", "a=3"])).unwrap();
    assert_eq!(v, json(r#"{"a":3,"b":2}"#));
}

#[test]
fn duplicate_keys_leave_one_member() {
    match normalize(&tokens(&["a=1", "a=x"])).unwrap() {
        StructuredData::Object(es) => {
            assert_eq!(es.len(), 1);
            assert_eq!(es[0].0, "a");
            assert!(matches!(&es[0].1, FieldValue::Text(t) if t == "x"));
        },
        other => panic!("expected an object, got {:?}", other),
    }
}

#[test]
fn single_pair_token_falls_through() {
    let v = parse_data_input(&tokens(&["foo=bar"])).unwrap();
    assert_eq!(v, json(r#"{"foo":"bar"}"#));
}

#[test]
fn value_keeps_later_equals_signs() {
    let v = parse_data_input(&tokens(&["k=a=b"])).unwrap();
    assert_eq!(v, json(r#"{"k":"a=b"}"#));
}

#[test]
fn empty_key_and_value_are_allowed() {
    let v = parse_data_input(&tokens(&["=", "x="])).unwrap();
    assert_eq!(v, json(r#"{"":"","x":""}"#));
}

#[test]
fn no_tokens_give_an_empty_object() {
    let v = parse_data_input(&tokens(&[])).unwrap();
    assert_eq!(v, json("{}"));
}

#[test]
fn single_token_without_json_or_equals_fails() {
    assert_eq!(bad_token(parse_data_input(&tokens(&["notjson"]))), "notjson");
}

#[test]
fn token_without_equals_among_several_fails() {
    assert_eq!(bad_token(parse_data_input(&tokens(&["a=1", "oops", "c=3"]))), "oops");
}

#[test]
fn first_token_without_equals_is_named() {
    assert_eq!(bad_token(parse_data_input(&tokens(&["x", "a=1", "y"]))), "x");
}

#[test]
fn json_token_among_several_is_not_kept_whole() {
    assert_eq!(bad_token(parse_data_input(&tokens(&["42", "a=1"]))), "42");
}

#[test]
fn split_at_first_equals() {
    assert_eq!(split_pair_exec("a=b=c"), Some(("a".to_string(), "b=c".to_string())));
    assert_eq!(split_pair_exec("é=ü"), Some(("é".to_string(), "ü".to_string())));
    assert_eq!(split_pair_exec("abc"), None);
}

#[test]
fn payload_carries_slug_type_and_data() {
    let p = Payload::from_inputs("proj".to_string(), Some("kind".to_string()), &tokens(&["a=1"]))
        .unwrap();
    assert_eq!(p.project_slug, "proj");
    assert_eq!(p.data_type, Some("kind".to_string()));
    assert_eq!(p.data, json(r#"{"a":1}"#));
}

#[test]
fn payload_fails_on_bad_input() {
    let r = Payload::from_inputs("proj".to_string(), None, &tokens(&["bad"]));
    assert!(matches!(r, Err(StoreError::InputFormat { token }) if token == "bad"));
}

#[test]
fn input_format_error_lines() {
    let e = StoreError::InputFormat { token: "bad".to_string() };
    assert_eq!(e.headline(), "Failed to parse data input");
    assert_eq!(
        e.cause(),
        Some("Invalid key=value pair: 'bad'. Expected format: key=value".to_string())
    );
}

#[test]
fn transport_error_lines() {
    let e = StoreError::Transport { cause: "connection refused".to_string() };
    assert_eq!(e.headline(), "Failed to send request to API");
    assert_eq!(e.cause(), Some("connection refused".to_string()));
}

#[test]
fn api_error_lines() {
    let e = StoreError::ApiRequest { message: "Bad request - x".to_string() };
    assert_eq!(e.headline(), "API request failed: Bad request - x");
    assert_eq!(e.cause(), None);
}

#[test]
fn single_json_string_with_equals_is_not_split() {
    let v = parse_data_input(&tokens(&[r#""a=b""#])).unwrap();
    assert_eq!(v, serde_json::Value::String("a=b".to_string()));
}

#[test]
fn duplicate_keys_give_one_member_per_key() {
    let v = parse_data_input(&tokens(&["a=1", "b=2", "a=3"])).unwrap();
    assert_eq!(v.as_object().map(|m| m.len()), Some(2));
}
