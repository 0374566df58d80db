use jpick::codec::to_json_text;
use jpick::error::PipelineError;
use jpick::pipeline::{finish, prepare, Selection};

#[test]
fn end_to_end_fields_and_out() {
    let input = "[{\"id\":1,\"name\":\"a\"},{\"id\":2,\"name\":\"b\"}]";
    let p = prepare(input, None, Some("name")).expect("pipeline succeeds");
    assert_eq!(p.lines, vec!["name: a".to_string(), "name: b".to_string()]);
    let out = finish(&p.items, Selection::Picked(1), Some("id")).expect("selection succeeds");
    assert_eq!(out, "{\"id\":2}");
}

#[test]
fn end_to_end_dig_without_out() {
    let input = "{\"data\":{\"items\":[{\"id\":9}]}}";
    let p = prepare(input, Some("data.items"), None).expect("pipeline succeeds");
    assert_eq!(p.items.len(), 1);
    assert_eq!(p.lines, vec!["id: 9".to_string()]);
    let out = finish(&p.items, Selection::Picked(0), None).expect("selection succeeds");
    assert_eq!(out, "{\"id\":9}");
}

#[test]
fn identity_projection_serializes_like_the_element() {
    let input = "[{\"b\":[1,{\"c\":null}],\"a\":\"x\"}]";
    let p = prepare(input, None, None).expect("pipeline succeeds");
    let out = finish(&p.items, Selection::Picked(0), None).expect("selection succeeds");
    assert_eq!(out, to_json_text(&p.items[0]));
    assert_eq!(out, "{\"b\":[1,{\"c\":null}],\"a\":\"x\"}");
}

#[test]
fn prepare_reports_each_failure() {
    assert!(matches!(prepare("nope", None, None), Err(PipelineError::DecodeError(_))));
    assert!(matches!(
        prepare("{\"a\":1}", Some("a.b"), None),
        Err(PipelineError::PathNotFound(seg)) if seg == "b"
    ));
    assert!(matches!(prepare("{\"a\":1}", None, None), Err(PipelineError::NotAnArray)));
    assert!(matches!(prepare("[]", None, None), Err(PipelineError::EmptyArray)));
}

#[test]
fn cancellation_is_a_distinct_outcome() {
    let p = prepare("[1]", None, None).expect("pipeline succeeds");
    assert!(matches!(finish(&p.items, Selection::Cancelled, None), Err(PipelineError::InteractionCancelled)));
}

#[test]
fn widget_failure_carries_its_message() {
    let p = prepare("[1]", None, None).expect("pipeline succeeds");
    let r = finish(&p.items, Selection::Failed("broken pipe".to_string()), None);
    assert!(matches!(r, Err(PipelineError::InteractionIOError(m)) if m == "broken pipe"));
}

#[test]
fn out_of_range_selection_fails() {
    let p = prepare("[1]", None, None).expect("pipeline succeeds");
    let r = finish(&p.items, Selection::Picked(5), None);
    assert!(matches!(r, Err(PipelineError::InteractionIOError(_))));
}

#[test]
fn out_list_on_non_object_selection_fails() {
    let p = prepare("[1,2]", None, None).expect("pipeline succeeds");
    let r = finish(&p.items, Selection::Picked(0), Some("id"));
    assert!(matches!(r, Err(PipelineError::NotAnObject)));
}

#[test]
fn blank_out_list_restricts_nothing() {
    let p = prepare("[{\"a\":1}]", None, None).expect("pipeline succeeds");
    let out = finish(&p.items, Selection::Picked(0), Some(" , ")).expect("selection succeeds");
    assert_eq!(out, "{\"a\":1}");
}

#[test]
fn blank_display_list_restricts_nothing() {
    let p = prepare("[{\"a\":1,\"b\":2}]", None, Some("  ,  ")).expect("pipeline succeeds");
    assert_eq!(p.lines, vec!["a: 1, b: 2".to_string()]);
}
