use crate::text::{
    first_sep, is_ws, join_with, lemma_first_sep, lemma_split_chars, lemma_split_of_join,
    lemma_split_sep_free, lemma_trim_back_prefix, lemma_trim_front_head, lemma_trim_front_suffix,
    lemma_trimmed_fixpoint, split_seq, split_str, str_views, trim_front, trim_str, trimmed,
};
use vstd::prelude::*;
use vstd::string::*;

verus! {

/// The cleaned pieces: each split piece trimmed, empty pieces dropped,
/// order kept.
pub open spec fn clean_fields(parts: Seq<Seq<char>>) -> Seq<Seq<char>>
    decreases parts.len(),
{
    if parts.len() == 0 {
        Seq::empty()
    } else {
        let t = trimmed(parts[0]);
        let rest = clean_fields(parts.drop_first());
        if t.len() == 0 {
            rest
        } else {
            seq![t] + rest
        }
    }
}

/// The field names denoted by a comma-separated list: split on commas,
/// each piece trimmed, empty pieces dropped, order kept.
pub open spec fn parsed_fields(s: Seq<char>) -> Seq<Seq<char>> {
    clean_fields(split_seq(s, ','))
}

/// Parse a comma-separated field list.
#[verifier::loop_isolation(false)]
pub fn parse_field_list(fields: &str) -> (r: Vec<String>)
    ensures
        str_views(r@) == parsed_fields(fields@),
{
    let pieces = split_str(fields, ',');
    let mut out: Vec<String> = Vec::new();
    let mut i: usize = 0;
    proof {
        assert(str_views(pieces@).skip(0) =~= str_views(pieces@));
        assert(str_views(out@) =~= Seq::<Seq<char>>::empty());
        assert(Seq::<Seq<char>>::empty() + parsed_fields(fields@) =~= parsed_fields(fields@));
    }
    while i < pieces.len()
        invariant
            i <= pieces.len(),
            parsed_fields(fields@) == str_views(out@) + clean_fields(
                str_views(pieces@).skip(i as int),
            ),
        decreases pieces.len() - i,
    {
        let t = trim_str(pieces[i].as_str());
        let ghost old_out = out@;
        let ghost vs = str_views(pieces@);
        proof {
            assert(vs.skip(i as int)[0] == vs[i as int]);
            assert(vs.skip(i as int).drop_first() =~= vs.skip(i as int + 1));
        }
        if !t.as_str().is_empty() {
            out.push(t);
            proof {
                assert(str_views(out@) =~= str_views(old_out).push(trimmed(vs[i as int])));
                assert(str_views(old_out).push(trimmed(vs[i as int])) =~= str_views(old_out)
                    + seq![trimmed(vs[i as int])]);
                assert((str_views(old_out) + seq![trimmed(vs[i as int])]) + clean_fields(
                    vs.skip(i as int + 1),
                ) =~= str_views(old_out) + (seq![trimmed(vs[i as int])] + clean_fields(
                    vs.skip(i as int + 1),
                )));
            }
        }
        i += 1;
    }
    proof {
        assert(str_views(pieces@).skip(pieces@.len() as int) =~= Seq::<Seq<char>>::empty());
        assert(str_views(out@) + Seq::<Seq<char>>::empty() =~= str_views(out@));
    }
    out
}

/// A well-formed parsed field name: non-empty, unchanged by trimming,
/// and free of commas.
pub open spec fn good_field(t: Seq<char>) -> bool {
    t.len() > 0 && trimmed(t) == t && forall|j: int| 0 <= j < t.len() ==> t[j] != ','
}

/// Every name in a cleaned list of comma-free pieces is well formed.
proof fn lemma_clean_fields_pieces(parts: Seq<Seq<char>>)
    requires
        forall|k: int, j: int|
            0 <= k < parts.len() && 0 <= j < parts[k].len() ==> parts[k][j] != ',',
    ensures
        forall|k: int|
            0 <= k < clean_fields(parts).len() ==> good_field(#[trigger] clean_fields(parts)[k]),
    decreases parts.len(),
{
    if parts.len() > 0 {
        lemma_clean_fields_pieces(parts.drop_first());
        let p = parts[0];
        let t = trimmed(p);
        lemma_trimmed_fixpoint(p);
        lemma_trim_front_suffix(p);
        lemma_trim_back_prefix(trim_front(p));
        assert forall|j: int| 0 <= j < t.len() implies t[j] != ',' by {
            assert(t[j] == trim_front(p)[j]);
            assert(trim_front(p)[j] == p[j + p.len() - trim_front(p).len()]);
        }
        let rest = clean_fields(parts.drop_first());
        assert forall|k: int|
            0 <= k < clean_fields(parts).len() implies good_field(
            #[trigger] clean_fields(parts)[k],
        ) by {
            if t.len() == 0 {
                assert(clean_fields(parts)[k] == rest[k]);
            } else {
                if k == 0 {
                    assert(clean_fields(parts)[0] == t);
                } else {
                    assert(clean_fields(parts)[k] == rest[k - 1]);
                }
            }
        }
    }
}

/// Cleaning a list of names that are already non-empty and trimmed
/// changes nothing.
proof fn lemma_clean_fields_of_clean(qs: Seq<Seq<char>>)
    requires
        forall|k: int| 0 <= k < qs.len() ==> good_field(#[trigger] qs[k]),
    ensures
        clean_fields(qs) == qs,
    decreases qs.len(),
{
    if qs.len() > 0 {
        assert(trimmed(qs[0]) == qs[0]);
        lemma_clean_fields_of_clean(qs.drop_first());
        assert(clean_fields(qs) == seq![qs[0]] + qs.drop_first());
        assert(seq![qs[0]] + qs.drop_first() =~= qs);
    }
}

/// A list whose pieces all trim to nothing cleans to nothing.
proof fn lemma_clean_fields_blank(parts: Seq<Seq<char>>)
    requires
        forall|k: int| 0 <= k < parts.len() ==> trimmed(#[trigger] parts[k]).len() == 0,
    ensures
        clean_fields(parts) == Seq::<Seq<char>>::empty(),
    decreases parts.len(),
{
    if parts.len() > 0 {
        lemma_clean_fields_blank(parts.drop_first());
    }
}

/// The field-list parser is idempotent: re-parsing the comma-joined
/// output of a parse returns that output unchanged.
pub proof fn lemma_parse_field_list_idempotent(s: Seq<char>)
    ensures
        parsed_fields(join_with(parsed_fields(s), seq![','])) == parsed_fields(s),
{
    let ps = parsed_fields(s);
    lemma_split_sep_free(s, ',');
    lemma_clean_fields_pieces(split_seq(s, ','));
    if ps.len() == 0 {
        let joined = join_with(ps, seq![',']);
        assert(joined =~= Seq::<char>::empty());
        lemma_first_sep(joined, ',');
        assert(split_seq(joined, ',') == seq![joined]);
        assert(trimmed(joined).len() == 0);
        assert forall|k: int|
            0 <= k < split_seq(joined, ',').len() implies trimmed(
            #[trigger] split_seq(joined, ',')[k],
        ).len() == 0 by {
            assert(split_seq(joined, ',')[k] == joined);
        }
        lemma_clean_fields_blank(split_seq(joined, ','));
    } else {
        lemma_split_of_join(ps, ',');
        lemma_clean_fields_of_clean(ps);
    }
}

/// An input that is nothing but whitespace (or nothing at all) parses to
/// no fields.
pub proof fn lemma_parse_field_list_blank(s: Seq<char>)
    requires
        forall|j: int| 0 <= j < s.len() ==> is_ws(s[j]),
    ensures
        parsed_fields(s) == Seq::<Seq<char>>::empty(),
{
    let parts = split_seq(s, ',');
    lemma_split_chars(s, ',', |c: char| is_ws(c));
    assert forall|k: int| 0 <= k < parts.len() implies trimmed(#[trigger] parts[k]).len() == 0 by {
        let p = parts[k];
        let t = trimmed(p);
        lemma_trim_front_head(p);
        lemma_trim_front_suffix(p);
        lemma_trim_back_prefix(trim_front(p));
        if t.len() > 0 {
            assert(t[0] == trim_front(p)[0]);
            assert(trim_front(p)[0] == p[0 + p.len() - trim_front(p).len()]);
            assert(is_ws(p[0 + p.len() - trim_front(p).len()]));
            assert(false);
        }
    }
    lemma_clean_fields_blank(parts);
}

} // verus!
