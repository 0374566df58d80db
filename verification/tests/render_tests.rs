use jpick::codec::decode;
use jpick::json::JsonValue;
use jpick::pipeline::ensure_array;
use jpick::render::{format_item, render_lines};

fn target(text: &str) -> Vec<JsonValue> {
    ensure_array(decode(text).expect("valid JSON")).expect("non-empty array")
}

#[test]
fn one_line_per_element_in_order() {
    let items = target("[{\"id\":1,\"name\":\"a\"},{\"id\":2,\"name\":\"b\"},{\"id\":3}]");
    let lines = render_lines(&items, None);
    assert_eq!(lines.len(), items.len());
    assert_eq!(lines[0], "id: 1, name: a");
    assert_eq!(lines[1], "id: 2, name: b");
    assert_eq!(lines[2], "id: 3");
}

#[test]
fn explicit_field_list_limits_and_orders_the_line() {
    let items = target("[{\"id\":1,\"name\":\"a\"}]");
    let fields = vec!["name".to_string()];
    let lines = render_lines(&items, Some(&fields));
    assert_eq!(lines[0], "name: a");
}

#[test]
fn absent_fields_are_silently_skipped() {
    let items = target("[{\"id\":1}]");
    let fields = vec!["name".to_string(), "id".to_string()];
    let lines = render_lines(&items, Some(&fields));
    assert_eq!(lines[0], "id: 1");
}

#[test]
fn variants_render_by_kind() {
    let items = target(
        "[{\"s\":\"x\",\"n\":2.5,\"t\":true,\"f\":false,\"z\":null,\"a\":[1],\"o\":{\"k\":1}}]",
    );
    let lines = render_lines(&items, None);
    assert_eq!(lines[0], "s: x, n: 2.5, t: true, f: false, z: null, a: [...], o: {...}");
}

#[test]
fn empty_selection_renders_placeholder() {
    let no_keys = target("[{}]");
    assert_eq!(render_lines(&no_keys, None)[0], "{empty}");

    let items = target("[{\"id\":1}]");
    let fields = vec!["missing".to_string()];
    assert_eq!(render_lines(&items, Some(&fields))[0], "{empty}");
}

#[test]
fn non_objects_render_as_their_json_text() {
    let fields = vec!["ignored".to_string()];
    assert_eq!(format_item(&JsonValue::Text("hi".to_string()), Some(&fields)), "\"hi\"");
    assert_eq!(format_item(&JsonValue::Number("7".to_string()), None), "7");
    assert_eq!(format_item(&JsonValue::Null, None), "null");
    assert_eq!(format_item(&JsonValue::Bool(true), None), "true");
}
