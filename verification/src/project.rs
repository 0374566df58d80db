use crate::codec::encoded_json;
use crate::error::PipelineError;
use crate::json::{entries_view, lemma_entries_view_props, obj_get, obj_lookup, JVal, JsonValue};
use crate::text::str_views;
use vstd::prelude::*;

verus! {

/// Whether an entry list has an entry under `k`.
pub open spec fn has_key(entries: Seq<(Seq<char>, JVal)>, k: Seq<char>) -> bool {
    obj_lookup(entries, k) is Some
}

/// The projected entry list, built left to right over the output list:
/// a name is kept when the source object has it and it was not already
/// kept, so the output follows the list's order without duplicates.
pub open spec fn project_from(
    src: Seq<(Seq<char>, JVal)>,
    fs: Seq<Seq<char>>,
    acc: Seq<(Seq<char>, JVal)>,
) -> Seq<(Seq<char>, JVal)>
    decreases fs.len(),
{
    if fs.len() == 0 {
        acc
    } else {
        let acc2 = match obj_lookup(src, fs[0]) {
            Some(v) => if has_key(acc, fs[0]) {
                acc
            } else {
                acc.push((fs[0], v))
            },
            None => acc,
        };
        project_from(src, fs.drop_first(), acc2)
    }
}

/// The entries of the object that projection owes.
pub open spec fn projected_entries(src: Seq<(Seq<char>, JVal)>, fs: Seq<Seq<char>>) -> Seq<
    (Seq<char>, JVal),
> {
    project_from(src, fs, Seq::empty())
}

/// The Projector with an output field list: the selected value must be
/// an object; the result is a new object holding, for each listed name
/// the source has, that name and its value.
#[verifier::loop_isolation(false)]
pub fn filter_fields(value: &JsonValue, fields: &Vec<String>) -> (r: Result<
    JsonValue,
    PipelineError,
>)
    ensures
        match r {
            Ok(out) => value@ matches JVal::Object(src) && out@ == JVal::Object(
                projected_entries(src, str_views(fields@)),
            ),
            Err(e) => !(value@ is Object) && e matches PipelineError::NotAnObject,
        },
{
    match value {
        JsonValue::Object(entries) => {
            let ghost src = entries_view(entries@);
            let ghost fvs = str_views(fields@);
            let mut out: Vec<(String, JsonValue)> = Vec::new();
            proof {
                lemma_entries_view_props(entries@);
                assert(fvs.skip(0) =~= fvs);
                assert(entries_view(out@) =~= Seq::<(Seq<char>, JVal)>::empty());
            }
            let mut i: usize = 0;
            while i < fields.len()
                invariant
                    i <= fields.len(),
                    projected_entries(src, fvs) == project_from(
                        src,
                        fvs.skip(i as int),
                        entries_view(out@),
                    ),
                decreases fields.len() - i,
            {
                proof {
                    assert(fvs.skip(i as int)[0] == fvs[i as int]);
                    assert(fvs.skip(i as int).drop_first() =~= fvs.skip(i as int + 1));
                }
                match obj_get(entries, &fields[i]) {
                    Some(found) => {
                        if obj_get(&out, &fields[i]).is_none() {
                            let k = fields[i].clone();
                            let v = found.deep_copy();
                            let ghost old_out = out@;
                            out.push((k, v));
                            proof {
                                lemma_entries_view_props(old_out);
                                lemma_entries_view_props(out@);
                                assert(entries_view(out@) =~= entries_view(old_out).push(
                                    (fvs[i as int], found@),
                                ));
                            }
                        }
                    }
                    None => {
                    }
                }
                i += 1;
            }
            proof {
                assert(fvs.skip(fields@.len() as int) =~= Seq::<Seq<char>>::empty());
            }
            Ok(JsonValue::Object(out))
        }
        _ => Err(PipelineError::NotAnObject),
    }
}

/// Projection keeps nothing when the source object has none of the
/// listed names: the result is the empty object, not an error.
proof fn lemma_project_from_no_matches(
    src: Seq<(Seq<char>, JVal)>,
    fs: Seq<Seq<char>>,
    acc: Seq<(Seq<char>, JVal)>,
)
    requires
        forall|k: int| 0 <= k < fs.len() ==> !has_key(src, #[trigger] fs[k]),
    ensures
        project_from(src, fs, acc) == acc,
    decreases fs.len(),
{
    if fs.len() > 0 {
        assert(!has_key(src, fs[0]));
        lemma_project_from_no_matches(src, fs.drop_first(), acc);
    }
}

/// An output list with no name present in the source yields the empty
/// object.
pub proof fn lemma_project_no_matches_empty(src: Seq<(Seq<char>, JVal)>, fs: Seq<Seq<char>>)
    requires
        forall|k: int| 0 <= k < fs.len() ==> !has_key(src, #[trigger] fs[k]),
    ensures
        projected_entries(src, fs) == Seq::<(Seq<char>, JVal)>::empty(),
{
    lemma_project_from_no_matches(src, fs, Seq::empty());
}

/// With no output field list the Projector returns the selected value
/// itself, so what it serializes to is exactly what the selected element
/// serializes to.
pub proof fn lemma_identity_projection_roundtrip(selected: JVal, projected: JVal)
    requires
        projected == selected,
    ensures
        encoded_json(projected) == encoded_json(selected),
{
}

} // verus!
