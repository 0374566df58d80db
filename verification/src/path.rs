use crate::error::PipelineError;
use crate::json::{obj_get, obj_lookup, JVal, JsonValue};
use crate::text::{split_seq, split_str, str_views};
use vstd::prelude::*;

verus! {

/// One navigation step: a key lookup when the value is an object,
/// failure on every other variant.
pub open spec fn dig_step(v: JVal, seg: Seq<char>) -> Option<JVal> {
    match v {
        JVal::Object(entries) => obj_lookup(entries, seg),
        _ => None,
    }
}

/// Walk the segments from the root; on failure report the index of the
/// segment that failed.
pub open spec fn dig_spec(v: JVal, segs: Seq<Seq<char>>) -> Result<JVal, int>
    decreases segs.len(),
{
    if segs.len() == 0 {
        Ok(v)
    } else {
        match dig_step(v, segs[0]) {
            Some(w) => match dig_spec(w, segs.drop_first()) {
                Ok(found) => Ok(found),
                Err(j) => Err(1 + j),
            },
            None => Err(0),
        }
    }
}

/// The Path Navigator: descend a dot-separated path of object keys from
/// `value` and return a copy of what the last segment names.
///
/// An empty path has one empty segment, so it looks up the key `""` in
/// the root and fails with `PathNotFound` unless the root has that key.
#[verifier::loop_isolation(false)]
pub fn dig_path(value: &JsonValue, path: &str) -> (r: Result<JsonValue, PipelineError>)
    ensures
        match r {
            Ok(v) => dig_spec(value@, split_seq(path@, '.')) == Ok::<JVal, int>(v@),
            Err(e) => {
                let d = dig_spec(value@, split_seq(path@, '.'));
                &&& d is Err
                &&& 0 <= d->Err_0 < split_seq(path@, '.').len()
                &&& e matches PipelineError::PathNotFound(seg) && seg@ == split_seq(
                    path@,
                    '.',
                )[d->Err_0]
            },
        },
{
    let segs = split_str(path, '.');
    let ghost svs = str_views(segs@);
    let mut cur: &JsonValue = value;
    let mut i: usize = 0;
    proof {
        assert(svs.skip(0) =~= svs);
    }
    while i < segs.len()
        invariant
            i <= segs.len(),
            svs == str_views(segs@),
            match dig_spec(cur@, svs.skip(i as int)) {
                Ok(w) => dig_spec(value@, svs) == Ok::<JVal, int>(w),
                Err(j) => dig_spec(value@, svs) == Err::<JVal, int>(i + j),
            },
        decreases segs.len() - i,
    {
        proof {
            assert(svs.skip(i as int)[0] == svs[i as int]);
            assert(svs.skip(i as int).drop_first() =~= svs.skip(i as int + 1));
        }
        match cur {
            JsonValue::Object(entries) => {
                match obj_get(entries, &segs[i]) {
                    Some(found) => {
                        cur = found;
                        i += 1;
                    }
                    None => {
                        return Err(PipelineError::PathNotFound(segs[i].clone()));
                    }
                }
            }
            _ => {
                return Err(PipelineError::PathNotFound(segs[i].clone()));
            }
        }
    }
    proof {
        assert(svs.skip(i as int) =~= Seq::<Seq<char>>::empty());
    }
    Ok(cur.deep_copy())
}

} // verus!
