//! A JSON document tree with a mathematical view, recursive null-stripping
//! and key lookup. Numbers keep their source text, so a document
//! round-trips without any floating-point representation.

use vstd::prelude::*;

verus! {

/// The mathematical shape of a JSON document.
pub enum JsonV {
    Null,
    Bool(bool),
    Num(Seq<char>),
    Str(Seq<char>),
    Arr(Seq<JsonV>),
    Obj(Seq<(Seq<char>, JsonV)>),
}

/// A JSON document. `Num` holds the number's source text unchanged.
#[derive(Debug)]
pub enum Json {
    Null,
    Bool(bool),
    Num(String),
    Str(String),
    Arr(Vec<Json>),
    Obj(Vec<(String, Json)>),
}

/// The view of a document.
pub open spec fn json_view(j: Json) -> JsonV
    decreases j,
{
    match j {
        Json::Null => JsonV::Null,
        Json::Bool(b) => JsonV::Bool(b),
        Json::Num(s) => JsonV::Num(s@),
        Json::Str(s) => JsonV::Str(s@),
        Json::Arr(v) => JsonV::Arr(views_of_seq_rec(v@)),
        Json::Obj(m) => JsonV::Obj(views_of_fields_rec(m@)),
    }
}

/// The views of a sequence of documents, element by element.
pub open spec fn views_of_seq_rec(s: Seq<Json>) -> Seq<JsonV>
    decreases s,
{
    if s.len() == 0 {
        Seq::empty()
    } else {
        seq![json_view(s[0])] + views_of_seq_rec(s.drop_first())
    }
}

/// The views of a sequence of keyed documents, element by element.
pub open spec fn views_of_fields_rec(s: Seq<(String, Json)>) -> Seq<(Seq<char>, JsonV)>
    decreases s,
{
    if s.len() == 0 {
        Seq::empty()
    } else {
        seq![(s[0].0@, json_view(s[0].1))] + views_of_fields_rec(s.drop_first())
    }
}

/// The views of a vector of documents, as a pointwise map.
pub open spec fn views_of_seq(s: Seq<Json>) -> Seq<JsonV> {
    Seq::new(s.len(), |i: int| json_view(s[i]))
}

/// The views of a vector of keyed documents, as a pointwise map.
pub open spec fn views_of_fields(s: Seq<(String, Json)>) -> Seq<(Seq<char>, JsonV)> {
    Seq::new(s.len(), |i: int| (s[i].0@, json_view(s[i].1)))
}

/// The recursive and the pointwise view of a document sequence agree.
pub proof fn lemma_views_of_seq(s: Seq<Json>)
    ensures
        views_of_seq_rec(s) == views_of_seq(s),
    decreases s,
{
    if s.len() > 0 {
        lemma_views_of_seq(s.drop_first());
        assert(views_of_seq_rec(s) =~= views_of_seq(s));
    } else {
        assert(views_of_seq_rec(s) =~= views_of_seq(s));
    }
}

/// The recursive and the pointwise view of a field sequence agree.
pub proof fn lemma_views_of_fields(s: Seq<(String, Json)>)
    ensures
        views_of_fields_rec(s) == views_of_fields(s),
    decreases s,
{
    if s.len() > 0 {
        lemma_views_of_fields(s.drop_first());
        assert(views_of_fields_rec(s) =~= views_of_fields(s));
    } else {
        assert(views_of_fields_rec(s) =~= views_of_fields(s));
    }
}

impl View for Json {
    type V = JsonV;

    open spec fn view(&self) -> JsonV {
        json_view(*self)
    }
}

/// A document with every null object member and every null array element
/// removed, recursively: an object key is dropped when its stripped value is
/// null, and null array elements are dropped after stripping each element.
pub open spec fn strip_nulls_v(v: JsonV) -> JsonV
    decreases v,
{
    match v {
        JsonV::Arr(elems) => JsonV::Arr(strip_nulls_seq(elems)),
        JsonV::Obj(fields) => JsonV::Obj(strip_nulls_fields(fields)),
        _ => v,
    }
}

/// Null-stripping over the elements of an array.
pub open spec fn strip_nulls_seq(s: Seq<JsonV>) -> Seq<JsonV>
    decreases s,
{
    if s.len() == 0 {
        Seq::empty()
    } else {
        let first = strip_nulls_v(s[0]);
        let rest = strip_nulls_seq(s.drop_first());
        if first is Null {
            rest
        } else {
            seq![first] + rest
        }
    }
}

/// Null-stripping over the members of an object.
pub open spec fn strip_nulls_fields(s: Seq<(Seq<char>, JsonV)>) -> Seq<(Seq<char>, JsonV)>
    decreases s,
{
    if s.len() == 0 {
        Seq::empty()
    } else {
        let first = strip_nulls_v(s[0].1);
        let rest = strip_nulls_fields(s.drop_first());
        if first is Null {
            rest
        } else {
            seq![(s[0].0, first)] + rest
        }
    }
}

/// No null value stands as an array element or an object member value,
/// at any depth.
pub open spec fn null_free_v(v: JsonV) -> bool
    decreases v,
{
    match v {
        JsonV::Arr(elems) => forall|i: int|
            0 <= i < elems.len() ==> !((#[trigger] elems[i]) is Null) && null_free_v(elems[i]),
        JsonV::Obj(fields) => forall|i: int|
            0 <= i < fields.len() ==> !((#[trigger] fields[i]).1 is Null) && null_free_v(
                fields[i].1,
            ),
        _ => true,
    }
}

/// Stripping leaves a document whose members are null-free.
pub proof fn lemma_strip_nulls_null_free(v: JsonV)
    ensures
        null_free_v(strip_nulls_v(v)),
    decreases v,
{
    match v {
        JsonV::Arr(elems) => {
            lemma_strip_nulls_seq_null_free(elems);
        }
        JsonV::Obj(fields) => {
            lemma_strip_nulls_fields_null_free(fields);
        }
        _ => {}
    }
}

proof fn lemma_strip_nulls_seq_null_free(s: Seq<JsonV>)
    ensures
        forall|i: int|
            0 <= i < strip_nulls_seq(s).len() ==> !((#[trigger] strip_nulls_seq(s)[i]) is Null)
                && null_free_v(strip_nulls_seq(s)[i]),
    decreases s,
{
    if s.len() > 0 {
        lemma_strip_nulls_null_free(s[0]);
        lemma_strip_nulls_seq_null_free(s.drop_first());
    }
}

proof fn lemma_strip_nulls_fields_null_free(s: Seq<(Seq<char>, JsonV)>)
    ensures
        forall|i: int|
            0 <= i < strip_nulls_fields(s).len() ==> !((#[trigger] strip_nulls_fields(
                s,
            )[i]).1 is Null) && null_free_v(strip_nulls_fields(s)[i].1),
    decreases s,
{
    if s.len() > 0 {
        lemma_strip_nulls_null_free(s[0].1);
        lemma_strip_nulls_fields_null_free(s.drop_first());
    }
}

/// A document whose members are null-free is unchanged by stripping.
pub proof fn lemma_strip_nulls_null_free_identity(v: JsonV)
    requires
        null_free_v(v),
    ensures
        strip_nulls_v(v) == v,
    decreases v,
{
    match v {
        JsonV::Arr(elems) => {
            lemma_strip_seq_identity(elems);
        }
        JsonV::Obj(fields) => {
            lemma_strip_fields_identity(fields);
        }
        _ => {}
    }
}

proof fn lemma_strip_seq_identity(s: Seq<JsonV>)
    requires
        forall|i: int| 0 <= i < s.len() ==> !((#[trigger] s[i]) is Null) && null_free_v(s[i]),
    ensures
        strip_nulls_seq(s) == s,
    decreases s,
{
    if s.len() > 0 {
        lemma_strip_nulls_null_free_identity(s[0]);
        lemma_strip_seq_identity(s.drop_first());
        assert(strip_nulls_seq(s) =~= s);
    } else {
        assert(strip_nulls_seq(s) =~= s);
    }
}

proof fn lemma_strip_fields_identity(s: Seq<(Seq<char>, JsonV)>)
    requires
        forall|i: int|
            0 <= i < s.len() ==> !((#[trigger] s[i]).1 is Null) && null_free_v(s[i].1),
    ensures
        strip_nulls_fields(s) == s,
    decreases s,
{
    if s.len() > 0 {
        lemma_strip_nulls_null_free_identity(s[0].1);
        lemma_strip_fields_identity(s.drop_first());
        assert((s[0].0, s[0].1) == s[0]);
        assert(strip_nulls_fields(s) =~= s);
    } else {
        assert(strip_nulls_fields(s) =~= s);
    }
}

/// Stripping is idempotent: stripping twice equals stripping once.
pub proof fn lemma_strip_nulls_idempotent(v: JsonV)
    ensures
        strip_nulls_v(strip_nulls_v(v)) == strip_nulls_v(v),
{
    lemma_strip_nulls_null_free(v);
    let stripped = strip_nulls_v(v);
    match stripped {
        JsonV::Arr(elems) => {
            lemma_strip_seq_identity(elems);
        }
        JsonV::Obj(fields) => {
            lemma_strip_fields_identity(fields);
        }
        _ => {}
    }
}

/// Removes every null object member and null array element, recursively,
/// returning the stripped document.
#[verifier::loop_isolation(false)]
pub fn strip_json(v: &Json) -> (r: Json)
    ensures
        r@ == strip_nulls_v(v@),
    decreases *v,
{
    match v {
        Json::Null => Json::Null,
        Json::Bool(b) => Json::Bool(*b),
        Json::Num(s) => Json::Num(s.clone()),
        Json::Str(s) => Json::Str(s.clone()),
        Json::Arr(elems) => {
            let ghost all = views_of_seq(elems@);
            let mut out: Vec<Json> = Vec::new();
            let mut i: usize = 0;
            proof {
                lemma_views_of_seq(elems@);
                assert(v@ == JsonV::Arr(all));
                assert(all.subrange(0, all.len() as int) =~= all);
            }
            while i < elems.len()
                invariant
                    i <= elems@.len(),
                    all == views_of_seq(elems@),
                    strip_nulls_seq(all) == views_of_seq(out@) + strip_nulls_seq(
                        all.subrange(i as int, all.len() as int),
                    ),
                decreases elems@.len() - i,
            {
                proof {
                    lemma_strip_seq_suffix_step(all, i as int);
                    assert(*v == Json::Arr(*elems));
                    assert(decreases_to!(*v => (*v)->Arr_0));
                    assert(decreases_to!(*elems => elems@[i as int]));
                }
                let stripped = strip_json(&elems[i]);
                let ghost prev = out@;
                if !matches!(stripped, Json::Null) {
                    out.push(stripped);
                    proof {
                        assert(views_of_seq(out@) =~= views_of_seq(prev) + seq![
                            strip_nulls_v(all[i as int]),
                        ]);
                        assert(views_of_seq(prev) + (seq![strip_nulls_v(all[i as int])]
                            + strip_nulls_seq(all.subrange(i + 1, all.len() as int))) =~= (
                        views_of_seq(prev) + seq![strip_nulls_v(all[i as int])])
                            + strip_nulls_seq(all.subrange(i + 1, all.len() as int)));
                    }
                } else {
                    proof {
                        assert(strip_nulls_v(all[i as int]) is Null);
                    }
                }
                i += 1;
            }
            proof {
                assert(all.subrange(all.len() as int, all.len() as int) =~= Seq::<JsonV>::empty());
                assert(views_of_seq(out@) + Seq::<JsonV>::empty() =~= views_of_seq(out@));
                lemma_views_of_seq(out@);
            }
            Json::Arr(out)
        }
        Json::Obj(fields) => {
            let ghost all = views_of_fields(fields@);
            let mut out: Vec<(String, Json)> = Vec::new();
            let mut i: usize = 0;
            proof {
                lemma_views_of_fields(fields@);
                assert(v@ == JsonV::Obj(all));
                assert(all.subrange(0, all.len() as int) =~= all);
            }
            while i < fields.len()
                invariant
                    i <= fields@.len(),
                    all == views_of_fields(fields@),
                    strip_nulls_fields(all) == views_of_fields(out@) + strip_nulls_fields(
                        all.subrange(i as int, all.len() as int),
                    ),
                decreases fields@.len() - i,
            {
                proof {
                    lemma_strip_fields_suffix_step(all, i as int);
                    assert(*v == Json::Obj(*fields));
                    assert(decreases_to!(*v => (*v)->Obj_0));
                    assert(decreases_to!(*fields => fields@[i as int]));
                    assert(decreases_to!(fields@[i as int] => fields@[i as int].1));
                }
                let stripped = strip_json(&fields[i].1);
                let ghost prev = out@;
                if !matches!(stripped, Json::Null) {
                    let key = fields[i].0.clone();
                    out.push((key, stripped));
                    proof {
                        assert(views_of_fields(out@) =~= views_of_fields(prev) + seq![
                            (all[i as int].0, strip_nulls_v(all[i as int].1)),
                        ]);
                        assert(views_of_fields(prev) + (seq![
                            (all[i as int].0, strip_nulls_v(all[i as int].1)),
                        ] + strip_nulls_fields(all.subrange(i + 1, all.len() as int))) =~= (
                        views_of_fields(prev) + seq![
                            (all[i as int].0, strip_nulls_v(all[i as int].1)),
                        ]) + strip_nulls_fields(all.subrange(i + 1, all.len() as int)));
                    }
                } else {
                    proof {
                        assert(strip_nulls_v(all[i as int].1) is Null);
                    }
                }
                i += 1;
            }
            proof {
                assert(all.subrange(all.len() as int, all.len() as int) =~= Seq::<
                    (Seq<char>, JsonV),
                >::empty());
                assert(views_of_fields(out@) + Seq::<(Seq<char>, JsonV)>::empty() =~= views_of_fields(
                    out@,
                ));
                lemma_views_of_fields(out@);
            }
            Json::Obj(out)
        }
    }
}

proof fn lemma_strip_seq_suffix_step(all: Seq<JsonV>, i: int)
    requires
        0 <= i < all.len(),
    ensures
        strip_nulls_seq(all.subrange(i, all.len() as int)) == if strip_nulls_v(all[i]) is Null {
            strip_nulls_seq(all.subrange(i + 1, all.len() as int))
        } else {
            seq![strip_nulls_v(all[i])] + strip_nulls_seq(all.subrange(i + 1, all.len() as int))
        },
{
    let tail = all.subrange(i, all.len() as int);
    assert(tail.len() > 0);
    assert(tail[0] == all[i]);
    assert(tail.drop_first() =~= all.subrange(i + 1, all.len() as int));
}

proof fn lemma_strip_fields_suffix_step(all: Seq<(Seq<char>, JsonV)>, i: int)
    requires
        0 <= i < all.len(),
    ensures
        strip_nulls_fields(all.subrange(i, all.len() as int)) == if strip_nulls_v(
            all[i].1,
        ) is Null {
            strip_nulls_fields(all.subrange(i + 1, all.len() as int))
        } else {
            seq![(all[i].0, strip_nulls_v(all[i].1))] + strip_nulls_fields(
                all.subrange(i + 1, all.len() as int),
            )
        },
{
    let tail = all.subrange(i, all.len() as int);
    assert(tail.len() > 0);
    assert(tail[0] == all[i]);
    assert(tail.drop_first() =~= all.subrange(i + 1, all.len() as int));
}

/// Strips `value` in place: afterwards it holds the stripped document.
pub fn remove_nulls(value: &mut Json)
    ensures
        final(value)@ == strip_nulls_v(old(value)@),
{
    let stripped = strip_json(value);
    *value = stripped;
}

/// The value under `k` among an object's members, first occurrence.
pub open spec fn fields_get_v(fields: Seq<(Seq<char>, JsonV)>, k: Seq<char>) -> Option<JsonV>
    decreases fields,
{
    if fields.len() == 0 {
        None
    } else if fields[0].0 == k {
        Some(fields[0].1)
    } else {
        fields_get_v(fields.drop_first(), k)
    }
}

/// The value under `k` of a document: its member value when the document is
/// an object holding `k`, and nothing otherwise.
pub open spec fn json_get_v(v: JsonV, k: Seq<char>) -> Option<JsonV> {
    match v {
        JsonV::Obj(fields) => fields_get_v(fields, k),
        _ => None,
    }
}

pub proof fn lemma_fields_get_at(fields: Seq<(Seq<char>, JsonV)>, k: Seq<char>, i: int)
    requires
        0 <= i < fields.len(),
        fields[i].0 == k,
        forall|j: int| 0 <= j < i ==> (#[trigger] fields[j]).0 != k,
    ensures
        fields_get_v(fields, k) == Some(fields[i].1),
    decreases i,
{
    if i > 0 {
        lemma_fields_get_at(fields.drop_first(), k, i - 1);
    }
}

pub proof fn lemma_fields_get_none(fields: Seq<(Seq<char>, JsonV)>, k: Seq<char>)
    requires
        forall|j: int| 0 <= j < fields.len() ==> (#[trigger] fields[j]).0 != k,
    ensures
        fields_get_v(fields, k) is None,
    decreases fields,
{
    if fields.len() > 0 {
        lemma_fields_get_none(fields.drop_first(), k);
    }
}

/// An equal copy of a document.
#[verifier::loop_isolation(false)]
pub fn clone_json(v: &Json) -> (r: Json)
    ensures
        r@ == v@,
    decreases *v,
{
    match v {
        Json::Null => Json::Null,
        Json::Bool(b) => Json::Bool(*b),
        Json::Num(s) => Json::Num(s.clone()),
        Json::Str(s) => Json::Str(s.clone()),
        Json::Arr(elems) => {
            let ghost all = views_of_seq(elems@);
            let mut out: Vec<Json> = Vec::new();
            let mut i: usize = 0;
            proof {
                lemma_views_of_seq(elems@);
                assert(v@ == JsonV::Arr(all));
            }
            while i < elems.len()
                invariant
                    i <= elems@.len(),
                    views_of_seq(out@) == all.subrange(0, i as int),
                decreases elems@.len() - i,
            {
                proof {
                    assert(decreases_to!(*v => (*v)->Arr_0));
                    assert(decreases_to!(*elems => elems@[i as int]));
                }
                out.push(clone_json(&elems[i]));
                proof {
                    assert(views_of_seq(out@) =~= all.subrange(0, i + 1));
                }
                i += 1;
            }
            proof {
                assert(all.subrange(0, all.len() as int) =~= all);
                lemma_views_of_seq(out@);
            }
            Json::Arr(out)
        }
        Json::Obj(fields) => {
            let ghost all = views_of_fields(fields@);
            let mut out: Vec<(String, Json)> = Vec::new();
            let mut i: usize = 0;
            proof {
                lemma_views_of_fields(fields@);
                assert(v@ == JsonV::Obj(all));
            }
            while i < fields.len()
                invariant
                    i <= fields@.len(),
                    views_of_fields(out@) == all.subrange(0, i as int),
                decreases fields@.len() - i,
            {
                proof {
                    assert(decreases_to!(*v => (*v)->Obj_0));
                    assert(decreases_to!(*fields => fields@[i as int]));
                    assert(decreases_to!(fields@[i as int] => fields@[i as int].1));
                }
                let key = fields[i].0.clone();
                out.push((key, clone_json(&fields[i].1)));
                proof {
                    assert(views_of_fields(out@) =~= all.subrange(0, i + 1));
                }
                i += 1;
            }
            proof {
                assert(all.subrange(0, all.len() as int) =~= all);
                lemma_views_of_fields(out@);
            }
            Json::Obj(out)
        }
    }
}

/// Looks `key` up among a list of keyed documents, first occurrence.
#[verifier::loop_isolation(false)]
pub fn fields_get<'a>(fields: &'a Vec<(String, Json)>, key: &str) -> (r: Option<&'a Json>)
    ensures
        (r is Some) == (fields_get_v(views_of_fields(fields@), key@) is Some),
        r is Some ==> r->0@ == fields_get_v(views_of_fields(fields@), key@)->0,
{
    let ghost all = views_of_fields(fields@);
    let owned = key.to_owned();
    let mut i: usize = 0;
    while i < fields.len()
        invariant
            i <= fields@.len(),
            owned@ == key@,
            forall|j: int| 0 <= j < i ==> (#[trigger] all[j]).0 != key@,
        decreases fields@.len() - i,
    {
        if fields[i].0 == owned {
            proof {
                lemma_fields_get_at(all, key@, i as int);
            }
            return Some(&fields[i].1);
        }
        i += 1;
    }
    proof {
        lemma_fields_get_none(all, key@);
    }
    None
}

/// The fields with every entry under `k` removed.
pub open spec fn spec_remove_field(
    fields: Seq<(Seq<char>, JsonV)>,
    k: Seq<char>,
) -> Seq<(Seq<char>, JsonV)>
    decreases fields,
{
    if fields.len() == 0 {
        Seq::empty()
    } else if fields[0].0 == k {
        spec_remove_field(fields.drop_first(), k)
    } else {
        seq![fields[0]] + spec_remove_field(fields.drop_first(), k)
    }
}

/// A document with one top-level property added or overwritten: on an
/// object, every entry under the key is removed and the new value appended
/// at the end; any other document is unchanged.
pub open spec fn spec_add_prop(v: JsonV, k: Seq<char>, value: JsonV) -> JsonV {
    match v {
        JsonV::Obj(fields) => JsonV::Obj(spec_remove_field(fields, k).push((k, value))),
        _ => v,
    }
}

proof fn lemma_remove_field_suffix(all: Seq<(Seq<char>, JsonV)>, k: Seq<char>, i: int)
    requires
        0 <= i < all.len(),
    ensures
        spec_remove_field(all.subrange(i, all.len() as int), k) == if all[i].0 == k {
            spec_remove_field(all.subrange(i + 1, all.len() as int), k)
        } else {
            seq![all[i]] + spec_remove_field(all.subrange(i + 1, all.len() as int), k)
        },
{
    let tail = all.subrange(i, all.len() as int);
    assert(tail.len() > 0);
    assert(tail[0] == all[i]);
    assert(tail.drop_first() =~= all.subrange(i + 1, all.len() as int));
}

/// Adds or overwrites one top-level property of a document: on an object,
/// the key's old entries leave and the new value stands at the end; any
/// other document is returned unchanged.
#[verifier::loop_isolation(false)]
pub fn add_new_prop(doc: Json, prop_name: &str, prop_value: Json) -> (r: Json)
    ensures
        r@ == spec_add_prop(doc@, prop_name@, prop_value@),
{
    match doc {
        Json::Obj(fields) => {
            let ghost all = views_of_fields(fields@);
            proof {
                lemma_views_of_fields(fields@);
            }
            let owned = prop_name.to_owned();
            let mut out: Vec<(String, Json)> = Vec::new();
            let mut i: usize = 0;
            proof {
                assert(all.subrange(0, all.len() as int) =~= all);
                assert(views_of_fields(out@) =~= Seq::<(Seq<char>, JsonV)>::empty());
            }
            while i < fields.len()
                invariant
                    i <= fields@.len(),
                    all == views_of_fields(fields@),
                    owned@ == prop_name@,
                    spec_remove_field(all, prop_name@) == views_of_fields(out@)
                        + spec_remove_field(
                        all.subrange(i as int, all.len() as int),
                        prop_name@,
                    ),
                decreases fields@.len() - i,
            {
                proof {
                    lemma_remove_field_suffix(all, prop_name@, i as int);
                }
                if !(fields[i].0 == owned) {
                    let ghost prev = out@;
                    let cloned = clone_json(&fields[i].1);
                    out.push((fields[i].0.clone(), cloned));
                    proof {
                        assert(views_of_fields(out@) =~= views_of_fields(prev) + seq![
                            all[i as int],
                        ]);
                        assert(views_of_fields(prev) + (seq![all[i as int]] + spec_remove_field(
                            all.subrange(i + 1, all.len() as int),
                            prop_name@,
                        )) =~= views_of_fields(out@) + spec_remove_field(
                            all.subrange(i + 1, all.len() as int),
                            prop_name@,
                        ));
                    }
                }
                i += 1;
            }
            proof {
                assert(all.subrange(all.len() as int, all.len() as int) =~= Seq::<
                    (Seq<char>, JsonV),
                >::empty());
                assert(views_of_fields(out@) + Seq::<(Seq<char>, JsonV)>::empty()
                    =~= views_of_fields(out@));
            }
            let ghost removed = views_of_fields(out@);
            out.push((owned, prop_value));
            proof {
                assert(views_of_fields(out@) =~= removed.push((prop_name@, json_view(
                    prop_value,
                ))));
                lemma_views_of_fields(out@);
            }
            Json::Obj(out)
        }
        other => other,
    }
}

/// Looks `key` up in `v`, as a JSON object lookup: nothing unless `v` is an
/// object holding the key.
#[verifier::loop_isolation(false)]
pub fn json_get<'a>(v: &'a Json, key: &str) -> (r: Option<&'a Json>)
    ensures
        (r is Some) == (json_get_v(v@, key@) is Some),
        r is Some ==> r->0@ == json_get_v(v@, key@)->0,
{
    match v {
        Json::Obj(fields) => {
            let ghost all = views_of_fields(fields@);
            proof {
                lemma_views_of_fields(fields@);
                assert(v@ == JsonV::Obj(all));
            }
            let owned = key.to_owned();
            let mut i: usize = 0;
            while i < fields.len()
                invariant
                    i <= fields@.len(),
                    all == views_of_fields(fields@),
                    owned@ == key@,
                    forall|j: int| 0 <= j < i ==> (#[trigger] all[j]).0 != key@,
                decreases fields@.len() - i,
            {
                if fields[i].0 == owned {
                    proof {
                        lemma_fields_get_at(all, key@, i as int);
                    }
                    return Some(&fields[i].1);
                }
                i += 1;
            }
            proof {
                lemma_fields_get_none(all, key@);
            }
            None
        }
        _ => None,
    }
}

} // verus!
