use vstd::prelude::*;

verus! {

/// A JSON document as plain data. A number carries its canonical decimal
/// text, so every variant is exact; an object keeps its entries in
/// insertion order.
pub enum JsonValue {
    Null,
    Bool(bool),
    Number(String),
    Text(String),
    Array(Vec<JsonValue>),
    Object(Vec<(String, JsonValue)>),
}

/// The mathematical model of a `JsonValue`: the same tree with every
/// string replaced by its character sequence.
pub enum JVal {
    Null,
    Bool(bool),
    Number(Seq<char>),
    Text(Seq<char>),
    Array(Seq<JVal>),
    Object(Seq<(Seq<char>, JVal)>),
}

pub open spec fn json_view(v: JsonValue) -> JVal
    decreases v,
{
    match v {
        JsonValue::Null => JVal::Null,
        JsonValue::Bool(b) => JVal::Bool(b),
        JsonValue::Number(s) => JVal::Number(s@),
        JsonValue::Text(s) => JVal::Text(s@),
        JsonValue::Array(items) => JVal::Array(arr_view(items@)),
        JsonValue::Object(entries) => JVal::Object(entries_view(entries@)),
    }
}

/// Model of an array's elements.
pub open spec fn arr_view(items: Seq<JsonValue>) -> Seq<JVal>
    decreases items,
{
    if items.len() == 0 {
        Seq::empty()
    } else {
        arr_view(items.drop_last()).push(json_view(items.last()))
    }
}

/// Model of an object's entry list: each key as characters, each value
/// as its model.
pub open spec fn entries_view(entries: Seq<(String, JsonValue)>) -> Seq<(Seq<char>, JVal)>
    decreases entries,
{
    if entries.len() == 0 {
        Seq::empty()
    } else {
        entries_view(entries.drop_last()).push(
            (entries.last().0@, json_view(entries.last().1)),
        )
    }
}

impl View for JsonValue {
    type V = JVal;

    open spec fn view(&self) -> JVal {
        json_view(*self)
    }
}

pub broadcast proof fn lemma_arr_view_props(items: Seq<JsonValue>)
    ensures
        (#[trigger] arr_view(items)).len() == items.len(),
        forall|i: int| 0 <= i < items.len() ==> arr_view(items)[i] == json_view(items[i]),
    decreases items.len(),
{
    if items.len() > 0 {
        lemma_arr_view_props(items.drop_last());
        assert forall|i: int| 0 <= i < items.len() implies arr_view(items)[i] == json_view(
            items[i],
        ) by {
            if i < items.len() - 1 {
                assert(items.drop_last()[i] == items[i]);
            } else {
                assert(items.last() == items[i]);
            }
        }
    }
}

pub broadcast proof fn lemma_entries_view_props(entries: Seq<(String, JsonValue)>)
    ensures
        (#[trigger] entries_view(entries)).len() == entries.len(),
        forall|i: int|
            0 <= i < entries.len() ==> entries_view(entries)[i] == (
                entries[i].0@,
                json_view(entries[i].1),
            ),
    decreases entries.len(),
{
    if entries.len() > 0 {
        lemma_entries_view_props(entries.drop_last());
        assert forall|i: int|
            0 <= i < entries.len() implies entries_view(entries)[i] == (
            entries[i].0@,
            json_view(entries[i].1),
        ) by {
            if i < entries.len() - 1 {
                assert(entries.drop_last()[i] == entries[i]);
            } else {
                assert(entries.last() == entries[i]);
            }
        }
    }
}

/// The value under the first entry whose key is `key`, if any.
pub open spec fn obj_lookup(entries: Seq<(Seq<char>, JVal)>, key: Seq<char>) -> Option<JVal>
    decreases entries.len(),
{
    if entries.len() == 0 {
        None
    } else if entries[0].0 == key {
        Some(entries[0].1)
    } else {
        obj_lookup(entries.drop_first(), key)
    }
}

proof fn lemma_obj_lookup_step(entries: Seq<(Seq<char>, JVal)>, key: Seq<char>, i: int)
    requires
        0 <= i < entries.len(),
        entries[i].0 != key,
        obj_lookup(entries, key) == obj_lookup(entries.skip(i), key),
    ensures
        obj_lookup(entries, key) == obj_lookup(entries.skip(i + 1), key),
{
    assert(entries.skip(i)[0] == entries[i]);
    assert(entries.skip(i).drop_first() =~= entries.skip(i + 1));
}

/// Find the first entry of `entries` whose key equals `key`.
#[verifier::loop_isolation(false)]
pub fn obj_get<'a>(entries: &'a Vec<(String, JsonValue)>, key: &String) -> (r: Option<
    &'a JsonValue,
>)
    ensures
        match r {
            Some(v) => obj_lookup(entries_view(entries@), key@) == Some(v@),
            None => obj_lookup(entries_view(entries@), key@) is None,
        },
{
    let ghost es = entries_view(entries@);
    proof {
        lemma_entries_view_props(entries@);
        assert(es.skip(0) =~= es);
    }
    let mut i: usize = 0;
    while i < entries.len()
        invariant
            i <= entries.len(),
            es == entries_view(entries@),
            obj_lookup(es, key@) == obj_lookup(es.skip(i as int), key@),
        decreases entries.len() - i,
    {
        if entries[i].0 == *key {
            assert(es.skip(i as int)[0] == es[i as int]);
            return Some(&entries[i].1);
        }
        proof {
            lemma_obj_lookup_step(es, key@, i as int);
        }
        i += 1;
    }
    assert(es.skip(i as int) =~= Seq::<(Seq<char>, JVal)>::empty());
    None
}

impl JsonValue {
    /// A structurally equal copy: same model, freshly allocated.
    #[verifier::loop_isolation(false)]
    pub fn deep_copy(&self) -> (r: JsonValue)
        ensures
            r@ == self@,
        decreases *self,
    {
        broadcast use lemma_arr_view_props, lemma_entries_view_props;

        match self {
            JsonValue::Null => JsonValue::Null,
            JsonValue::Bool(b) => JsonValue::Bool(*b),
            JsonValue::Number(s) => JsonValue::Number(s.clone()),
            JsonValue::Text(s) => JsonValue::Text(s.clone()),
            JsonValue::Array(items) => {
                let mut out: Vec<JsonValue> = Vec::new();
                let mut i: usize = 0;
                while i < items.len()
                    invariant
                        i <= items.len(),
                        out@.len() == i as int,
                        forall|j: int| 0 <= j < i ==> out@[j]@ == items@[j]@,
                    decreases items.len() - i,
                {
                    proof {
                        assert(decreases_to!(*self => *items));
                        assert(decreases_to!(*items => items@));
                        assert(decreases_to!(items@ => items@[i as int]));
                    }
                    let c = items[i].deep_copy();
                    out.push(c);
                    i += 1;
                }
                proof {
                    assert(arr_view(out@) =~= arr_view(items@));
                }
                JsonValue::Array(out)
            }
            JsonValue::Object(entries) => {
                let mut out: Vec<(String, JsonValue)> = Vec::new();
                let mut i: usize = 0;
                while i < entries.len()
                    invariant
                        i <= entries.len(),
                        out@.len() == i as int,
                        forall|j: int|
                            0 <= j < i ==> out@[j].0@ == entries@[j].0@ && out@[j].1@
                                == entries@[j].1@,
                    decreases entries.len() - i,
                {
                    proof {
                        assert(decreases_to!(*self => *entries));
                        assert(decreases_to!(*entries => entries@));
                        assert(decreases_to!(entries@ => entries@[i as int]));
                        assert(decreases_to!(entries@[i as int] => entries@[i as int].1));
                    }
                    let k = entries[i].0.clone();
                    let v = entries[i].1.deep_copy();
                    out.push((k, v));
                    i += 1;
                }
                proof {
                    assert(entries_view(out@) =~= entries_view(entries@));
                }
                JsonValue::Object(out)
            }
        }
    }
}

} // verus!
