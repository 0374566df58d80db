use crate::codec::{decode, encoded_json, parsed_json, to_json_text};
use crate::error::PipelineError;
use crate::fields::{parse_field_list, parsed_fields};
use crate::json::{arr_view, lemma_arr_view_props, JVal, JsonValue};
use crate::path::{dig_path, dig_spec};
use crate::project::{filter_fields, projected_entries};
use crate::render::{fields_view, render_lines, rendered_line};
use crate::text::{split_seq, str_views};
use vstd::prelude::*;
use vstd::string::*;

verus! {

/// What the interactive widget reported: a confirmed index into the
/// displayed list, a deliberate abort, or a failure with its message.
pub enum Selection {
    Picked(usize),
    Cancelled,
    Failed(String),
}

/// What navigation and the Array Guard owe for a root value and an
/// optional dig path: the target array's elements, or the failure.
pub enum TargetFail {
    PathNotFound(Seq<char>),
    NotAnArray,
    EmptyArray,
}

pub open spec fn guard_spec(v: JVal) -> Result<Seq<JVal>, TargetFail> {
    match v {
        JVal::Array(elems) => if elems.len() == 0 {
            Err(TargetFail::EmptyArray)
        } else {
            Ok(elems)
        },
        _ => Err(TargetFail::NotAnArray),
    }
}

pub open spec fn target_spec(root: JVal, dig: Option<Seq<char>>) -> Result<Seq<JVal>, TargetFail> {
    match dig {
        Some(path) => match dig_spec(root, split_seq(path, '.')) {
            Ok(v) => guard_spec(v),
            Err(i) => Err(TargetFail::PathNotFound(split_seq(path, '.')[i])),
        },
        None => guard_spec(root),
    }
}

pub open spec fn dig_opt_view(dig: Option<&str>) -> Option<Seq<char>> {
    match dig {
        Some(d) => Some(d@),
        None => None,
    }
}

/// The field restriction denoted by an optional raw comma-separated
/// list: a list that parses to no names restricts nothing, as if none
/// had been supplied.
pub open spec fn effective_fields(fields: Option<&str>) -> Option<Seq<Seq<char>>> {
    match fields {
        Some(f) => if parsed_fields(f@).len() == 0 {
            None
        } else {
            Some(parsed_fields(f@))
        },
        None => None,
    }
}

/// The Array Guard: the located value must be a non-empty array.
pub fn ensure_array(value: JsonValue) -> (r: Result<Vec<JsonValue>, PipelineError>)
    ensures
        match r {
            Ok(items) => guard_spec(value@) == Ok::<Seq<JVal>, TargetFail>(arr_view(items@))
                && items@.len() > 0,
            Err(e) => {
                &&& guard_spec(value@) is Err
                &&& (e matches PipelineError::NotAnArray) <==> guard_spec(value@) == Err::<
                    Seq<JVal>,
                    TargetFail,
                >(TargetFail::NotAnArray)
                &&& (e matches PipelineError::EmptyArray) <==> guard_spec(value@) == Err::<
                    Seq<JVal>,
                    TargetFail,
                >(TargetFail::EmptyArray)
                &&& (e matches PipelineError::NotAnArray || e matches PipelineError::EmptyArray)
            },
        },
{
    match value {
        JsonValue::Array(items) => {
            proof {
                lemma_arr_view_props(items@);
            }
            if items.len() == 0 {
                Err(PipelineError::EmptyArray)
            } else {
                Ok(items)
            }
        }
        _ => Err(PipelineError::NotAnArray),
    }
}

/// The target array together with its display lines, ready for the
/// interactive step.
pub struct Prepared {
    pub items: Vec<JsonValue>,
    pub lines: Vec<String>,
}

/// Everything before the interactive step: decode the input, optionally
/// dig to the target, guard that it is a non-empty array, and render one
/// display line per element.
pub fn prepare(input: &str, dig: Option<&str>, fields: Option<&str>) -> (r: Result<
    Prepared,
    PipelineError,
>)
    ensures
        match r {
            Ok(p) => {
                &&& parsed_json(input@) matches Some(root)
                &&& target_spec(root, dig_opt_view(dig)) == Ok::<Seq<JVal>, TargetFail>(
                    arr_view(p.items@),
                )
                &&& p.items@.len() > 0
                &&& p.lines@.len() == p.items@.len()
                &&& forall|i: int|
                    0 <= i < p.items@.len() ==> p.lines@[i]@ == rendered_line(
                        arr_view(p.items@)[i],
                        effective_fields(fields),
                    )
            },
            Err(e) => match e {
                PipelineError::DecodeError(_) => parsed_json(input@) is None,
                PipelineError::PathNotFound(seg) => {
                    &&& parsed_json(input@) matches Some(root)
                    &&& target_spec(root, dig_opt_view(dig)) == Err::<Seq<JVal>, TargetFail>(
                        TargetFail::PathNotFound(seg@),
                    )
                },
                PipelineError::NotAnArray => {
                    &&& parsed_json(input@) matches Some(root)
                    &&& target_spec(root, dig_opt_view(dig)) == Err::<Seq<JVal>, TargetFail>(
                        TargetFail::NotAnArray,
                    )
                },
                PipelineError::EmptyArray => {
                    &&& parsed_json(input@) matches Some(root)
                    &&& target_spec(root, dig_opt_view(dig)) == Err::<Seq<JVal>, TargetFail>(
                        TargetFail::EmptyArray,
                    )
                },
                _ => false,
            },
        },
{
    let root = match decode(input) {
        Ok(v) => v,
        Err(e) => {
            return Err(e);
        }
    };
    let located = match dig {
        Some(path) => match dig_path(&root, path) {
            Ok(v) => v,
            Err(e) => {
                return Err(e);
            }
        },
        None => root,
    };
    let items = match ensure_array(located) {
        Ok(a) => a,
        Err(e) => {
            return Err(e);
        }
    };
    let parsed = match fields {
        Some(f) => {
            let names = parse_field_list(f);
            if names.is_empty() {
                None
            } else {
                Some(names)
            }
        }
        None => None,
    };
    let lines = render_lines(&items, parsed.as_ref());
    proof {
        lemma_arr_view_props(items@);
    }
    Ok(Prepared { items, lines })
}

/// Everything after the interactive step: validate the widget's
/// outcome, project the chosen record onto the optional output field
/// list, and serialize the result as one line of JSON text.
pub fn finish(items: &Vec<JsonValue>, selection: Selection, out: Option<&str>) -> (r: Result<
    String,
    PipelineError,
>)
    ensures
        match selection {
            Selection::Picked(i) => {
                if i < items@.len() {
                    match effective_fields(out) {
                        Some(fs) => match r {
                            Ok(text) => items@[i as int]@ matches JVal::Object(src) && text@
                                == encoded_json(JVal::Object(projected_entries(src, fs))),
                            Err(e) => e matches PipelineError::NotAnObject && !(items@[
                                i as int
                            ]@ is Object),
                        },
                        None => r matches Ok(text) && text@ == encoded_json(items@[i as int]@),
                    }
                } else {
                    r matches Err(e) && e matches PipelineError::InteractionIOError(_)
                }
            },
            Selection::Cancelled => r matches Err(e) && e matches PipelineError::InteractionCancelled,
            Selection::Failed(m) => r matches Err(e) && (e matches
                PipelineError::InteractionIOError(t) && t@ == m@),
        },
{
    match selection {
        Selection::Picked(i) => {
            if i < items.len() {
                let projected = match out {
                    Some(f) => {
                        let names = parse_field_list(f);
                        if names.is_empty() {
                            items[i].deep_copy()
                        } else {
                            match filter_fields(&items[i], &names) {
                                Ok(v) => v,
                                Err(e) => {
                                    return Err(e);
                                }
                            }
                        }
                    }
                    None => items[i].deep_copy(),
                };
                Ok(to_json_text(&projected))
            } else {
                Err(
                    PipelineError::InteractionIOError(
                        String::from_str("selection index out of range"),
                    ),
                )
            }
        }
        Selection::Cancelled => Err(PipelineError::InteractionCancelled),
        Selection::Failed(m) => Err(PipelineError::InteractionIOError(m)),
    }
}

} // verus!
