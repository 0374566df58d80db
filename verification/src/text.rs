use vstd::prelude::*;
use vstd::string::*;

verus! {

/// The whitespace characters that field-list parsing strips from the
/// ends of each piece.
pub open spec fn is_ws(c: char) -> bool {
    c == ' ' || c == '\t' || c == '\n' || c == '\r'
}

pub fn is_ws_char(c: char) -> (r: bool)
    ensures
        r == is_ws(c),
{
    c == ' ' || c == '\t' || c == '\n' || c == '\r'
}

pub open spec fn trim_front(s: Seq<char>) -> Seq<char>
    decreases s.len(),
{
    if s.len() > 0 && is_ws(s[0]) {
        trim_front(s.drop_first())
    } else {
        s
    }
}

pub open spec fn trim_back(s: Seq<char>) -> Seq<char>
    decreases s.len(),
{
    if s.len() > 0 && is_ws(s.last()) {
        trim_back(s.drop_last())
    } else {
        s
    }
}

/// The input without leading and trailing whitespace.
pub open spec fn trimmed(s: Seq<char>) -> Seq<char> {
    trim_back(trim_front(s))
}

/// `trim_front` keeps a suffix: same characters, shifted left.
pub proof fn lemma_trim_front_suffix(s: Seq<char>)
    ensures
        trim_front(s).len() <= s.len(),
        forall|j: int|
            0 <= j < trim_front(s).len() ==> trim_front(s)[j] == s[j + s.len()
                - trim_front(s).len()],
    decreases s.len(),
{
    if s.len() > 0 && is_ws(s[0]) {
        lemma_trim_front_suffix(s.drop_first());
    }
}

/// `trim_back` keeps a prefix: same characters, same positions.
pub proof fn lemma_trim_back_prefix(s: Seq<char>)
    ensures
        trim_back(s).len() <= s.len(),
        forall|j: int| 0 <= j < trim_back(s).len() ==> trim_back(s)[j] == s[j],
    decreases s.len(),
{
    if s.len() > 0 && is_ws(s.last()) {
        lemma_trim_back_prefix(s.drop_last());
        assert forall|j: int| 0 <= j < trim_back(s).len() implies trim_back(s)[j] == s[j] by {
            assert(s.drop_last()[j] == s[j]);
        }
    }
}

/// A non-empty `trim_front` result starts with a non-whitespace character.
pub proof fn lemma_trim_front_head(s: Seq<char>)
    ensures
        trim_front(s).len() > 0 ==> !is_ws(trim_front(s)[0]),
    decreases s.len(),
{
    if s.len() > 0 && is_ws(s[0]) {
        lemma_trim_front_head(s.drop_first());
    }
}

/// A non-empty `trim_back` result ends with a non-whitespace character.
pub proof fn lemma_trim_back_last(s: Seq<char>)
    ensures
        trim_back(s).len() > 0 ==> !is_ws(trim_back(s).last()),
    decreases s.len(),
{
    if s.len() > 0 && is_ws(s.last()) {
        lemma_trim_back_last(s.drop_last());
    }
}

/// Trimming an already trimmed sequence changes nothing.
pub proof fn lemma_trimmed_fixpoint(s: Seq<char>)
    ensures
        trimmed(trimmed(s)) == trimmed(s),
{
    let f = trim_front(s);
    let t = trim_back(f);
    lemma_trim_front_head(s);
    lemma_trim_back_prefix(f);
    lemma_trim_back_last(f);
    if t.len() > 0 {
        assert(t[0] == f[0]);
    }
    assert(trim_front(t) == t);
    assert(trim_back(t) == t);
}

/// Index of the first occurrence of `sep`, or the length if absent.
pub open spec fn first_sep(s: Seq<char>, sep: char) -> nat
    decreases s.len(),
{
    if s.len() == 0 {
        0
    } else if s[0] == sep {
        0
    } else {
        1 + first_sep(s.drop_first(), sep)
    }
}

pub proof fn lemma_first_sep(s: Seq<char>, sep: char)
    ensures
        first_sep(s, sep) <= s.len(),
        first_sep(s, sep) < s.len() ==> s[first_sep(s, sep) as int] == sep,
        forall|j: int| 0 <= j < first_sep(s, sep) ==> s[j] != sep,
    decreases s.len(),
{
    if s.len() > 0 && s[0] != sep {
        lemma_first_sep(s.drop_first(), sep);
        assert forall|j: int| 0 <= j < first_sep(s, sep) implies s[j] != sep by {
            if j > 0 {
                assert(s.drop_first()[j - 1] == s[j]);
            }
        }
    }
}

/// The pieces of `s` between occurrences of `sep`: always at least one
/// piece, one more piece per separator, separators themselves dropped.
pub open spec fn split_seq(s: Seq<char>, sep: char) -> Seq<Seq<char>>
    decreases s.len(),
    via split_seq_dec
{
    let i = first_sep(s, sep) as int;
    if i == s.len() {
        seq![s]
    } else {
        seq![s.subrange(0, i)] + split_seq(s.skip(i + 1), sep)
    }
}

#[via_fn]
proof fn split_seq_dec(s: Seq<char>, sep: char) {
    lemma_first_sep(s, sep);
}

/// No piece of a split contains the separator.
pub proof fn lemma_split_sep_free(s: Seq<char>, sep: char)
    ensures
        forall|k: int, j: int|
            0 <= k < split_seq(s, sep).len() && 0 <= j < split_seq(s, sep)[k].len()
                ==> split_seq(s, sep)[k][j] != sep,
    decreases s.len(),
{
    lemma_first_sep(s, sep);
    let i = first_sep(s, sep) as int;
    if i < s.len() {
        lemma_split_sep_free(s.skip(i + 1), sep);
        let head = s.subrange(0, i);
        let rest = split_seq(s.skip(i + 1), sep);
        assert forall|k: int, j: int|
            0 <= k < split_seq(s, sep).len() && 0 <= j < split_seq(s, sep)[k].len() implies split_seq(
            s,
            sep,
        )[k][j] != sep by {
            if k == 0 {
                assert(split_seq(s, sep)[0] == head);
            } else {
                assert(split_seq(s, sep)[k] == rest[k - 1]);
            }
        }
    }
}

/// Every character of every piece is a character of the input.
pub proof fn lemma_split_chars(s: Seq<char>, sep: char, p: spec_fn(char) -> bool)
    requires
        forall|j: int| 0 <= j < s.len() ==> p(s[j]),
    ensures
        forall|k: int, j: int|
            0 <= k < split_seq(s, sep).len() && 0 <= j < split_seq(s, sep)[k].len() ==> p(
                split_seq(s, sep)[k][j],
            ),
    decreases s.len(),
{
    lemma_first_sep(s, sep);
    let i = first_sep(s, sep) as int;
    if i < s.len() {
        lemma_split_chars(s.skip(i + 1), sep, p);
        let head = s.subrange(0, i);
        let rest = split_seq(s.skip(i + 1), sep);
        assert forall|k: int, j: int|
            0 <= k < split_seq(s, sep).len() && 0 <= j < split_seq(s, sep)[k].len() implies p(
            split_seq(s, sep)[k][j],
        ) by {
            if k == 0 {
                assert(split_seq(s, sep)[0] == head);
            } else {
                assert(split_seq(s, sep)[k] == rest[k - 1]);
                assert(rest[k - 1][j] == split_seq(s.skip(i + 1), sep)[k - 1][j]);
            }
        }
    }
}

/// The pieces joined back with `sep` between them.
pub open spec fn join_with(parts: Seq<Seq<char>>, sep: Seq<char>) -> Seq<char>
    decreases parts.len(),
{
    if parts.len() == 0 {
        Seq::empty()
    } else if parts.len() == 1 {
        parts[0]
    } else {
        parts[0] + sep + join_with(parts.drop_first(), sep)
    }
}

/// Appending one more piece extends the join at its right end.
pub proof fn lemma_join_push(parts: Seq<Seq<char>>, piece: Seq<char>, sep: Seq<char>)
    ensures
        parts.len() == 0 ==> join_with(parts.push(piece), sep) == piece,
        parts.len() > 0 ==> join_with(parts.push(piece), sep) == join_with(parts, sep) + sep
            + piece,
    decreases parts.len(),
{
    if parts.len() == 0 {
        assert(parts.push(piece)[0] == piece);
    } else if parts.len() == 1 {
        let two = parts.push(piece);
        assert(two.drop_first() =~= seq![piece]);
        assert(join_with(seq![piece], sep) == piece);
        assert(join_with(two, sep) == two[0] + sep + join_with(two.drop_first(), sep));
        assert(two[0] == parts[0]);
        assert(join_with(parts, sep) == parts[0]);
    } else {
        lemma_join_push(parts.drop_first(), piece, sep);
        assert(parts.push(piece).drop_first() =~= parts.drop_first().push(piece));
        assert(join_with(parts.push(piece), sep) == parts[0] + sep + join_with(
            parts.drop_first().push(piece),
            sep,
        ));
        assert((parts[0] + sep + (join_with(parts.drop_first(), sep) + sep + piece)) =~= (parts[0]
            + sep + join_with(parts.drop_first(), sep) + sep + piece));
    }
}

/// Splitting a join on a separator that no piece contains recovers the
/// pieces exactly.
pub proof fn lemma_split_of_join(parts: Seq<Seq<char>>, sep: char)
    requires
        parts.len() >= 1,
        forall|k: int, j: int|
            0 <= k < parts.len() && 0 <= j < parts[k].len() ==> parts[k][j] != sep,
    ensures
        split_seq(join_with(parts, seq![sep]), sep) == parts,
    decreases parts.len(),
{
    let s = join_with(parts, seq![sep]);
    lemma_first_sep(s, sep);
    let i = first_sep(s, sep) as int;
    if parts.len() == 1 {
        assert(s == parts[0]);
        if i < s.len() {
            assert(s[i] == sep);
            assert(false);
        }
        assert(split_seq(s, sep) == seq![s]);
        assert(seq![s] =~= parts);
    } else {
        let head = parts[0];
        let rest = join_with(parts.drop_first(), seq![sep]);
        assert(s == head + seq![sep] + rest);
        assert(s[head.len() as int] == sep);
        assert forall|j: int| 0 <= j < head.len() implies s[j] != sep by {
            assert(s[j] == head[j]);
        }
        assert(i == head.len()) by {
            if i < head.len() {
                assert(s[i] == head[i]);
                assert(false);
            }
            if i > head.len() {
                assert(s[head.len() as int] != sep);
                assert(false);
            }
        }
        assert(s.subrange(0, i) =~= head);
        assert(s.skip(i + 1) =~= rest);
        lemma_split_of_join(parts.drop_first(), sep);
        assert(split_seq(s, sep) == seq![head] + parts.drop_first());
        assert(seq![head] + parts.drop_first() =~= parts);
    }
}

/// Character sequences of a list of strings.
pub open spec fn str_views(ss: Seq<String>) -> Seq<Seq<char>> {
    Seq::new(ss.len(), |i: int| ss[i]@)
}

/// Strip leading and trailing whitespace.
#[verifier::loop_isolation(false)]
pub fn trim_str(s: &str) -> (r: String)
    ensures
        r@ == trimmed(s@),
{
    let n = s.unicode_len();
    let mut a: usize = 0;
    proof {
        assert(s@.skip(0) =~= s@);
    }
    while a < n && is_ws_char(s.get_char(a))
        invariant
            a <= n,
            trim_front(s@) == trim_front(s@.skip(a as int)),
        decreases n - a,
    {
        proof {
            assert(s@.skip(a as int)[0] == s@[a as int]);
            assert(s@.skip(a as int).drop_first() =~= s@.skip(a as int + 1));
        }
        a += 1;
    }
    proof {
        assert(s@.skip(a as int) =~= s@.subrange(a as int, n as int));
        assert(trim_front(s@) == s@.subrange(a as int, n as int));
    }
    let mut b: usize = n;
    while b > a && is_ws_char(s.get_char(b - 1))
        invariant
            a <= b <= n,
            trim_back(s@.subrange(a as int, n as int)) == trim_back(
                s@.subrange(a as int, b as int),
            ),
        decreases b,
    {
        proof {
            let sub = s@.subrange(a as int, b as int);
            assert(sub.last() == s@[b - 1]);
            assert(sub.drop_last() =~= s@.subrange(a as int, b as int - 1));
        }
        b -= 1;
    }
    let piece = s.substring_char(a, b);
    proof {
        assert(trim_back(s@.subrange(a as int, b as int)) == s@.subrange(a as int, b as int));
    }
    piece.to_owned()
}

/// Split on `sep`, keeping empty pieces.
#[verifier::loop_isolation(false)]
pub fn split_str(s: &str, sep: char) -> (r: Vec<String>)
    ensures
        str_views(r@) == split_seq(s@, sep),
{
    let n = s.unicode_len();
    let mut r: Vec<String> = Vec::new();
    let mut start: usize = 0;
    let mut i: usize = 0;
    proof {
        assert(s@.skip(0) =~= s@);
        assert(str_views(r@) =~= Seq::<Seq<char>>::empty());
        assert(Seq::<Seq<char>>::empty() + split_seq(s@, sep) =~= split_seq(s@, sep));
    }
    while i < n
        invariant
            start <= i <= n,
            forall|j: int| start <= j < i ==> s@[j] != sep,
            split_seq(s@, sep) == str_views(r@) + split_seq(s@.skip(start as int), sep),
        decreases n - i,
    {
        if s.get_char(i) == sep {
            let piece = s.substring_char(start, i).to_owned();
            let ghost old_r = r@;
            let ghost tail = s@.skip(start as int);
            proof {
                lemma_first_sep(tail, sep);
                assert forall|j: int| 0 <= j < i - start implies tail[j] != sep by {
                    assert(tail[j] == s@[start + j]);
                }
                assert(tail[i - start] == s@[i as int]);
                if first_sep(tail, sep) < i - start {
                    assert(tail[first_sep(tail, sep) as int] == sep);
                    assert(false);
                }
                if first_sep(tail, sep) > i - start {
                    assert(tail[(i - start) as int] != sep);
                    assert(false);
                }
                assert(tail.subrange(0, (i - start) as int) =~= s@.subrange(
                    start as int,
                    i as int,
                ));
                assert(tail.skip((i - start) as int + 1) =~= s@.skip(i as int + 1));
                assert(split_seq(tail, sep) == seq![piece@] + split_seq(s@.skip(i as int + 1), sep));
            }
            r.push(piece);
            proof {
                assert(str_views(r@) =~= str_views(old_r).push(piece@));
                assert(str_views(old_r).push(piece@) =~= str_views(old_r) + seq![piece@]);
                assert((str_views(old_r) + seq![piece@]) + split_seq(s@.skip(i as int + 1), sep)
                    =~= str_views(old_r) + (seq![piece@] + split_seq(s@.skip(i as int + 1), sep)));
            }
            start = i + 1;
        }
        i += 1;
    }
    let last = s.substring_char(start, n).to_owned();
    let ghost old_r = r@;
    let ghost tail = s@.skip(start as int);
    proof {
        lemma_first_sep(tail, sep);
        assert forall|j: int| 0 <= j < tail.len() implies tail[j] != sep by {
            assert(tail[j] == s@[start + j]);
        }
        if first_sep(tail, sep) < tail.len() {
            assert(tail[first_sep(tail, sep) as int] == sep);
            assert(false);
        }
        assert(split_seq(tail, sep) == seq![tail]);
        assert(last@ =~= tail);
    }
    r.push(last);
    proof {
        assert(str_views(r@) =~= str_views(old_r).push(last@));
        assert(str_views(old_r).push(last@) =~= str_views(old_r) + seq![tail]);
        assert(str_views(r@) =~= split_seq(s@, sep));
    }
    r
}

/// Join the strings with `sep` between neighbours.
#[verifier::loop_isolation(false)]
pub fn join_parts(parts: &Vec<String>, sep: &str) -> (r: String)
    ensures
        r@ == join_with(str_views(parts@), sep@),
{
    let mut out = String::new();
    let mut i: usize = 0;
    while i < parts.len()
        invariant
            i <= parts.len(),
            out@ == join_with(str_views(parts@).take(i as int), sep@),
        decreases parts.len() - i,
    {
        if i > 0 {
            out.append(sep);
        }
        out.append(parts[i].as_str());
        proof {
            let vs = str_views(parts@);
            lemma_join_push(vs.take(i as int), vs[i as int], sep@);
            assert(vs.take(i as int).push(vs[i as int]) =~= vs.take(i as int + 1));
            if i == 0 {
                assert(Seq::<char>::empty() + vs[0] =~= vs[0]);
            }
        }
        i += 1;
    }
    proof {
        assert(str_views(parts@).take(parts@.len() as int) =~= str_views(parts@));
    }
    out
}

} // verus!
