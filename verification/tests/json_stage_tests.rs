use jpick::codec::{decode, to_json_text};
use jpick::error::PipelineError;
use jpick::json::JsonValue;
use jpick::path::dig_path;
use jpick::pipeline::ensure_array;
use jpick::project::filter_fields;

fn obj(entries: Vec<(&str, JsonValue)>) -> JsonValue {
    JsonValue::Object(entries.into_iter().map(|(k, v)| (k.to_string(), v)).collect())
}

fn num(n: &str) -> JsonValue {
    JsonValue::Number(n.to_string())
}

#[test]
fn decode_parses_structure() {
    let v = decode("[1, 2]").expect("valid JSON");
    match v {
        JsonValue::Array(items) => {
            assert_eq!(items.len(), 2);
            assert!(matches!(&items[0], JsonValue::Number(t) if t == "1"));
            assert!(matches!(&items[1], JsonValue::Number(t) if t == "2"));
        }
        _ => panic!("expected an array"),
    }
}

#[test]
fn decode_rejects_malformed_input() {
    let r = decode("not json at all");
    assert!(matches!(r, Err(PipelineError::DecodeError(_))));
}

#[test]
fn encode_normalizes_whitespace() {
    let v = decode("{ \"a\" : 1 }").expect("valid JSON");
    assert_eq!(to_json_text(&v), "{\"a\":1}");
}

#[test]
fn encode_keeps_insertion_order() {
    let v = decode("{\"b\":1,\"a\":2}").expect("valid JSON");
    assert_eq!(to_json_text(&v), "{\"b\":1,\"a\":2}");
}

#[test]
fn dig_descends_nested_objects() {
    let root = decode("{\"a\":{\"b\":{\"c\":[1,2,3]}}}").expect("valid JSON");
    let found = dig_path(&root, "a.b.c").expect("path exists");
    assert_eq!(to_json_text(&found), "[1,2,3]");
}

#[test]
fn dig_names_the_failing_segment() {
    let root = decode("{\"a\":{\"b\":{\"c\":[1,2,3]}}}").expect("valid JSON");
    match dig_path(&root, "a.x") {
        Err(PipelineError::PathNotFound(seg)) => assert_eq!(seg, "x"),
        other => panic!("expected PathNotFound, got {:?}", other.map(|v| to_json_text(&v))),
    }
}

#[test]
fn dig_fails_through_non_objects() {
    let root = decode("{\"a\":[1]}").expect("valid JSON");
    match dig_path(&root, "a.b") {
        Err(PipelineError::PathNotFound(seg)) => assert_eq!(seg, "b"),
        other => panic!("expected PathNotFound, got {:?}", other.map(|v| to_json_text(&v))),
    }
}

#[test]
fn dig_empty_path_looks_up_the_empty_key() {
    let with_key = decode("{\"\":5}").expect("valid JSON");
    let found = dig_path(&with_key, "").expect("empty key present");
    assert_eq!(to_json_text(&found), "5");

    let without = decode("{\"a\":1}").expect("valid JSON");
    match dig_path(&without, "") {
        Err(PipelineError::PathNotFound(seg)) => assert_eq!(seg, ""),
        other => panic!("expected PathNotFound, got {:?}", other.map(|v| to_json_text(&v))),
    }
}

#[test]
fn guard_rejects_non_array_and_empty_array_distinctly() {
    let not_array = decode("{\"a\":1}").expect("valid JSON");
    assert!(matches!(ensure_array(not_array), Err(PipelineError::NotAnArray)));

    let empty = decode("[]").expect("valid JSON");
    assert!(matches!(ensure_array(empty), Err(PipelineError::EmptyArray)));
}

#[test]
fn guard_accepts_non_empty_array() {
    let v = decode("[null]").expect("valid JSON");
    let items = ensure_array(v).expect("non-empty array");
    assert_eq!(items.len(), 1);
    assert!(matches!(items[0], JsonValue::Null));
}

#[test]
fn filter_keeps_listed_fields_in_list_order() {
    let v = obj(vec![("id", num("1")), ("name", JsonValue::Text("a".to_string())), ("x", num("9"))]);
    let fields = vec!["name".to_string(), "id".to_string()];
    let out = filter_fields(&v, &fields).expect("object");
    assert_eq!(to_json_text(&out), "{\"name\":\"a\",\"id\":1}");
}

#[test]
fn filter_with_no_matching_keys_yields_empty_object() {
    let v = obj(vec![("a", num("1"))]);
    let fields = vec!["x".to_string(), "y".to_string()];
    let out = filter_fields(&v, &fields).expect("object");
    assert_eq!(to_json_text(&out), "{}");
}

#[test]
fn filter_rejects_non_objects() {
    let fields = vec!["a".to_string()];
    let r = filter_fields(&num("3"), &fields);
    assert!(matches!(r, Err(PipelineError::NotAnObject)));
}

#[test]
fn filter_ignores_duplicate_names() {
    let v = obj(vec![("a", num("1")), ("b", num("2"))]);
    let fields = vec!["a".to_string(), "a".to_string(), "b".to_string()];
    let out = filter_fields(&v, &fields).expect("object");
    assert_eq!(to_json_text(&out), "{\"a\":1,\"b\":2}");
}

#[test]
fn error_messages_match_their_kinds() {
    assert_eq!(
        PipelineError::NotAnArray.message(),
        "Input must be a JSON array (or use --dig to extract an array)"
    );
    assert_eq!(PipelineError::EmptyArray.message(), "Input array is empty");
    assert_eq!(
        PipelineError::NotAnObject.message(),
        "Cannot filter fields on non-object value"
    );
    assert_eq!(
        PipelineError::PathNotFound("x".to_string()).message(),
        "Path component 'x' not found"
    );
    assert_eq!(PipelineError::InteractionCancelled.message(), "");
}
