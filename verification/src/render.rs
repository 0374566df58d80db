use crate::codec::{encoded_json, to_json_text};
use crate::json::{obj_get, obj_lookup, JVal, JsonValue};
use crate::text::{join_parts, join_with, str_views};
use vstd::prelude::*;
use vstd::string::*;

verus! {

/// How one field value appears inside a display line: strings raw,
/// scalars as their text, nested structures as fixed placeholders.
pub open spec fn scalar_text(v: JVal) -> Seq<char> {
    match v {
        JVal::Null => "null"@,
        JVal::Bool(b) => if b {
            "true"@
        } else {
            "false"@
        },
        JVal::Number(n) => n,
        JVal::Text(s) => s,
        JVal::Array(_) => "[...]"@,
        JVal::Object(_) => "{...}"@,
    }
}

/// The `key: value` parts for an explicit field list: listed order,
/// absent fields silently skipped.
pub open spec fn shown_parts(entries: Seq<(Seq<char>, JVal)>, fs: Seq<Seq<char>>) -> Seq<
    Seq<char>,
>
    decreases fs.len(),
{
    if fs.len() == 0 {
        Seq::empty()
    } else {
        let rest = shown_parts(entries, fs.drop_first());
        match obj_lookup(entries, fs[0]) {
            Some(v) => seq![fs[0] + ": "@ + scalar_text(v)] + rest,
            None => rest,
        }
    }
}

/// The `key: value` parts for every entry, in the object's own order.
pub open spec fn all_parts(entries: Seq<(Seq<char>, JVal)>) -> Seq<Seq<char>>
    decreases entries.len(),
{
    if entries.len() == 0 {
        Seq::empty()
    } else {
        seq![entries[0].0 + ": "@ + scalar_text(entries[0].1)] + all_parts(entries.drop_first())
    }
}

/// The display fields in effect: the explicit list if one was given.
pub open spec fn fields_view(fields: Option<&Vec<String>>) -> Option<Seq<Seq<char>>> {
    match fields {
        Some(f) => Some(str_views(f@)),
        None => None,
    }
}

/// The one display line for a value: an object's selected `key: value`
/// parts joined with `, ` (a fixed placeholder when none are shown), and
/// any other value's compact JSON text.
pub open spec fn rendered_line(v: JVal, fields: Option<Seq<Seq<char>>>) -> Seq<char> {
    match v {
        JVal::Object(entries) => {
            let parts = match fields {
                Some(fs) => shown_parts(entries, fs),
                None => all_parts(entries),
            };
            if parts.len() == 0 {
                "{empty}"@
            } else {
                join_with(parts, ", "@)
            }
        }
        _ => encoded_json(v),
    }
}

/// One shown field, `key: value`.
fn render_entry(key: &String, value: &JsonValue) -> (r: String)
    ensures
        r@ == key@ + ": "@ + scalar_text(value@),
{
    let mut out = key.clone();
    out.append(": ");
    let val = scalar_string(value);
    out.append(val.as_str());
    out
}

/// The display text of one field value.
fn scalar_string(value: &JsonValue) -> (r: String)
    ensures
        r@ == scalar_text(value@),
{
    match value {
        JsonValue::Null => String::from_str("null"),
        JsonValue::Bool(b) => {
            if *b {
                String::from_str("true")
            } else {
                String::from_str("false")
            }
        }
        JsonValue::Number(n) => n.clone(),
        JsonValue::Text(s) => s.clone(),
        JsonValue::Array(_) => String::from_str("[...]"),
        JsonValue::Object(_) => String::from_str("{...}"),
    }
}

/// The Renderer for one element: one line of display text.
#[verifier::loop_isolation(false)]
pub fn format_item(item: &JsonValue, fields: Option<&Vec<String>>) -> (r: String)
    ensures
        r@ == rendered_line(item@, fields_view(fields)),
{
    match item {
        JsonValue::Object(entries) => {
            let ghost es = crate::json::entries_view(entries@);
            proof {
                crate::json::lemma_entries_view_props(entries@);
            }
            let mut parts: Vec<String> = Vec::new();
            match fields {
                Some(flist) => {
                    let ghost fvs = str_views(flist@);
                    proof {
                        assert(fvs.skip(0) =~= fvs);
                        assert(str_views(parts@) =~= Seq::<Seq<char>>::empty());
                        assert(Seq::<Seq<char>>::empty() + shown_parts(es, fvs) =~= shown_parts(
                            es,
                            fvs,
                        ));
                    }
                    let mut i: usize = 0;
                    while i < flist.len()
                        invariant
                            i <= flist.len(),
                            shown_parts(es, fvs) == str_views(parts@) + shown_parts(
                                es,
                                fvs.skip(i as int),
                            ),
                        decreases flist.len() - i,
                    {
                        proof {
                            assert(fvs.skip(i as int)[0] == fvs[i as int]);
                            assert(fvs.skip(i as int).drop_first() =~= fvs.skip(i as int + 1));
                        }
                        match obj_get(entries, &flist[i]) {
                            Some(v) => {
                                let part = render_entry(&flist[i], v);
                                let ghost old_parts = parts@;
                                parts.push(part);
                                proof {
                                    assert(str_views(parts@) =~= str_views(old_parts).push(part@));
                                    assert(str_views(old_parts).push(part@) =~= str_views(old_parts)
                                        + seq![part@]);
                                    assert((str_views(old_parts) + seq![part@]) + shown_parts(
                                        es,
                                        fvs.skip(i as int + 1),
                                    ) =~= str_views(old_parts) + (seq![part@] + shown_parts(
                                        es,
                                        fvs.skip(i as int + 1),
                                    )));
                                }
                            }
                            None => {
                            }
                        }
                        i += 1;
                    }
                    proof {
                        assert(fvs.skip(flist@.len() as int) =~= Seq::<Seq<char>>::empty());
                        assert(str_views(parts@) + Seq::<Seq<char>>::empty() =~= str_views(parts@));
                    }
                }
                None => {
                    proof {
                        assert(es.skip(0) =~= es);
                        assert(str_views(parts@) =~= Seq::<Seq<char>>::empty());
                        assert(Seq::<Seq<char>>::empty() + all_parts(es) =~= all_parts(es));
                    }
                    let mut i: usize = 0;
                    while i < entries.len()
                        invariant
                            i <= entries.len(),
                            all_parts(es) == str_views(parts@) + all_parts(es.skip(i as int)),
                        decreases entries.len() - i,
                    {
                        proof {
                            assert(es.skip(i as int)[0] == es[i as int]);
                            assert(es.skip(i as int).drop_first() =~= es.skip(i as int + 1));
                        }
                        let part = render_entry(&entries[i].0, &entries[i].1);
                        let ghost old_parts = parts@;
                        parts.push(part);
                        proof {
                            assert(str_views(parts@) =~= str_views(old_parts).push(part@));
                            assert(str_views(old_parts).push(part@) =~= str_views(old_parts)
                                + seq![part@]);
                            assert((str_views(old_parts) + seq![part@]) + all_parts(
                                es.skip(i as int + 1),
                            ) =~= str_views(old_parts) + (seq![part@] + all_parts(
                                es.skip(i as int + 1),
                            )));
                        }
                        i += 1;
                    }
                    proof {
                        assert(es.skip(entries@.len() as int) =~= Seq::<(Seq<char>, JVal)>::empty());
                        assert(str_views(parts@) + Seq::<Seq<char>>::empty() =~= str_views(parts@));
                    }
                }
            }
            if parts.len() == 0 {
                String::from_str("{empty}")
            } else {
                join_parts(&parts, ", ")
            }
        }
        _ => to_json_text(item),
    }
}

/// The Renderer: exactly one display line per array element, in element
/// order.
#[verifier::loop_isolation(false)]
pub fn render_lines(items: &Vec<JsonValue>, fields: Option<&Vec<String>>) -> (r: Vec<String>)
    ensures
        r@.len() == items@.len(),
        forall|i: int|
            0 <= i < items@.len() ==> r@[i]@ == rendered_line(items@[i]@, fields_view(fields)),
{
    let mut lines: Vec<String> = Vec::new();
    let mut i: usize = 0;
    while i < items.len()
        invariant
            i <= items.len(),
            lines@.len() == i as int,
            forall|j: int|
                0 <= j < i ==> lines@[j]@ == rendered_line(items@[j]@, fields_view(fields)),
        decreases items.len() - i,
    {
        let line = format_item(&items[i], fields);
        lines.push(line);
        i += 1;
    }
    lines
}

} // verus!
