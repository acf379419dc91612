//! The typed profile documents: a vendor document with its four reference
//! lists, and the four child profile kinds. Every field not part of a fixed
//! schema is routed into the document's `extra` map and round-trips
//! unchanged.

use vstd::prelude::*;
use crate::json::{
    fields_get, fields_get_v, views_of_fields, views_of_seq, Json, JsonV, lemma_views_of_fields,
    lemma_views_of_seq, clone_json,
};
use crate::strings::str_eq;

verus! {

/// A reference from a vendor document to a child profile document:
/// the child's name and its path relative to the vendor's directory.
#[derive(Debug, Clone)]
pub struct ConfigNameAndPath {
    pub name: String,
    pub sub_path: String,
}

/// The unrecognized fields of a document, in document order.
#[derive(Debug)]
pub struct Extra(pub Vec<(String, Json)>);

impl View for Extra {
    type V = Seq<(Seq<char>, JsonV)>;

    open spec fn view(&self) -> Seq<(Seq<char>, JsonV)> {
        views_of_fields(self.0@)
    }
}

/// An optional string field, seen as character sequences.
pub open spec fn opt_str_view(o: Option<String>) -> Option<Seq<char>> {
    match o {
        Option::Some(s) => Option::Some(s@),
        Option::None => Option::None,
    }
}

/// A reference list, seen as pairs of character sequences.
pub open spec fn refs_view(l: Seq<ConfigNameAndPath>) -> Seq<(Seq<char>, Seq<char>)> {
    Seq::new(l.len(), |i: int| (l[i].name@, l[i].sub_path@))
}

/// An optional reference list, seen as pairs of character sequences.
pub open spec fn opt_refs_view(o: Option<Vec<ConfigNameAndPath>>) -> Option<
    Seq<(Seq<char>, Seq<char>)>,
> {
    match o {
        Option::Some(l) => Option::Some(refs_view(l@)),
        Option::None => Option::None,
    }
}

/// A string list, seen as character sequences.
pub open spec fn strs_view(l: Seq<String>) -> Seq<Seq<char>> {
    Seq::new(l.len(), |i: int| l[i]@)
}

/// An optional string list, seen as character sequences.
pub open spec fn opt_strs_view(o: Option<Vec<String>>) -> Option<Seq<Seq<char>>> {
    match o {
        Option::Some(l) => Option::Some(strs_view(l@)),
        Option::None => Option::None,
    }
}

/// An optional string field of an object: absent and null mean nothing,
/// a string is taken, and any other value is a type mismatch.
pub open spec fn spec_opt_str(fields: Seq<(Seq<char>, JsonV)>, k: Seq<char>) -> Result<
    Option<Seq<char>>,
    (),
> {
    match fields_get_v(fields, k) {
        Option::None => Result::Ok(Option::None),
        Option::Some(v) => match v {
            JsonV::Null => Result::Ok(Option::None),
            JsonV::Str(s) => Result::Ok(Option::Some(s)),
            _ => Result::Err(()),
        },
    }
}

/// A required string field of an object: anything but a present string is
/// a mismatch.
pub open spec fn spec_req_str(fields: Seq<(Seq<char>, JsonV)>, k: Seq<char>) -> Result<
    Seq<char>,
    (),
> {
    match fields_get_v(fields, k) {
        Option::Some(v) => match v {
            JsonV::Str(s) => Result::Ok(s),
            _ => Result::Err(()),
        },
        Option::None => Result::Err(()),
    }
}

/// One reference-list entry: an object holding `name` and `sub_path`
/// strings; further fields are ignored.
pub open spec fn spec_ref_entry(v: JsonV) -> Result<(Seq<char>, Seq<char>), ()> {
    match v {
        JsonV::Obj(fs) => match (spec_req_str(fs, "name"@), spec_req_str(fs, "sub_path"@)) {
            (Result::Ok(n), Result::Ok(p)) => Result::Ok((n, p)),
            _ => Result::Err(()),
        },
        _ => Result::Err(()),
    }
}

/// The entries of a reference list, each parsed, all or nothing.
pub open spec fn spec_ref_entries(s: Seq<JsonV>) -> Result<Seq<(Seq<char>, Seq<char>)>, ()>
    decreases s,
{
    if s.len() == 0 {
        Result::Ok(Seq::empty())
    } else {
        match (spec_ref_entry(s[0]), spec_ref_entries(s.drop_first())) {
            (Result::Ok(e), Result::Ok(rest)) => Result::Ok(seq![e] + rest),
            _ => Result::Err(()),
        }
    }
}

/// An optional reference-list field: absent and null mean nothing, an
/// array is parsed entry by entry, and any other value is a mismatch.
pub open spec fn spec_ref_list(fields: Seq<(Seq<char>, JsonV)>, k: Seq<char>) -> Result<
    Option<Seq<(Seq<char>, Seq<char>)>>,
    (),
> {
    match fields_get_v(fields, k) {
        Option::None => Result::Ok(Option::None),
        Option::Some(v) => match v {
            JsonV::Null => Result::Ok(Option::None),
            JsonV::Arr(es) => match spec_ref_entries(es) {
                Result::Ok(rs) => Result::Ok(Option::Some(rs)),
                Result::Err(e) => Result::Err(e),
            },
            _ => Result::Err(()),
        },
    }
}

/// The items of a string array, all or nothing.
pub open spec fn spec_str_items(s: Seq<JsonV>) -> Result<Seq<Seq<char>>, ()>
    decreases s,
{
    if s.len() == 0 {
        Result::Ok(Seq::empty())
    } else {
        match (s[0], spec_str_items(s.drop_first())) {
            (JsonV::Str(x), Result::Ok(rest)) => Result::Ok(seq![x] + rest),
            _ => Result::Err(()),
        }
    }
}

/// An optional string-array field: absent and null mean nothing, an array
/// of strings is taken, and any other value is a mismatch.
pub open spec fn spec_str_list(fields: Seq<(Seq<char>, JsonV)>, k: Seq<char>) -> Result<
    Option<Seq<Seq<char>>>,
    (),
> {
    match fields_get_v(fields, k) {
        Option::None => Result::Ok(Option::None),
        Option::Some(v) => match v {
            JsonV::Null => Result::Ok(Option::None),
            JsonV::Arr(es) => match spec_str_items(es) {
                Result::Ok(rs) => Result::Ok(Option::Some(rs)),
                Result::Err(e) => Result::Err(e),
            },
            _ => Result::Err(()),
        },
    }
}

/// The fields whose keys the schema does not know, in document order.
pub open spec fn spec_extra_fields(
    fields: Seq<(Seq<char>, JsonV)>,
    known: spec_fn(Seq<char>) -> bool,
) -> Seq<(Seq<char>, JsonV)>
    decreases fields,
{
    if fields.len() == 0 {
        Seq::empty()
    } else if known(fields[0].0) {
        spec_extra_fields(fields.drop_first(), known)
    } else {
        seq![fields[0]] + spec_extra_fields(fields.drop_first(), known)
    }
}

/// Extracts an optional string field.
fn get_opt_str(fields: &Vec<(String, Json)>, key: &str) -> (r: Result<Option<String>, ()>)
    ensures
        (r is Ok) == (spec_opt_str(views_of_fields(fields@), key@) is Ok),
        r is Ok ==> opt_str_view(r->Ok_0) == spec_opt_str(views_of_fields(fields@), key@)->Ok_0,
{
    match fields_get(fields, key) {
        Option::None => Result::Ok(Option::None),
        Option::Some(v) => match v {
            Json::Null => Result::Ok(Option::None),
            Json::Str(s) => Result::Ok(Option::Some(s.clone())),
            _ => Result::Err(()),
        },
    }
}

/// Extracts a required string field.
fn get_req_str(fields: &Vec<(String, Json)>, key: &str) -> (r: Result<String, ()>)
    ensures
        (r is Ok) == (spec_req_str(views_of_fields(fields@), key@) is Ok),
        r is Ok ==> r->Ok_0@ == spec_req_str(views_of_fields(fields@), key@)->Ok_0,
{
    match fields_get(fields, key) {
        Option::Some(v) => match v {
            Json::Str(s) => Result::Ok(s.clone()),
            _ => Result::Err(()),
        },
        Option::None => Result::Err(()),
    }
}

/// Parses one reference-list entry.
fn parse_ref_entry(v: &Json) -> (r: Result<ConfigNameAndPath, ()>)
    ensures
        (r is Ok) == (spec_ref_entry(v@) is Ok),
        r is Ok ==> (r->Ok_0.name@, r->Ok_0.sub_path@) == spec_ref_entry(v@)->Ok_0,
{
    match v {
        Json::Obj(fs) => {
            proof {
                lemma_views_of_fields(fs@);
            }
            let name = get_req_str(fs, "name");
            let sub_path = get_req_str(fs, "sub_path");
            match (name, sub_path) {
                (Result::Ok(n), Result::Ok(p)) => Result::Ok(
                    ConfigNameAndPath { name: n, sub_path: p },
                ),
                _ => Result::Err(()),
            }
        }
        _ => Result::Err(()),
    }
}

proof fn lemma_ref_entries_suffix(all: Seq<JsonV>, i: int)
    requires
        0 <= i < all.len(),
    ensures
        spec_ref_entries(all.subrange(i, all.len() as int)) == (match (
            spec_ref_entry(all[i]),
            spec_ref_entries(all.subrange(i + 1, all.len() as int)),
        ) {
            (Result::Ok(e), Result::Ok(rest)) => Result::<_, ()>::Ok(seq![e] + rest),
            _ => Result::Err(()),
        }),
{
    let tail = all.subrange(i, all.len() as int);
    assert(tail.len() > 0);
    assert(tail[0] == all[i]);
    assert(tail.drop_first() =~= all.subrange(i + 1, all.len() as int));
}

/// Parses a whole reference-list array.
#[verifier::loop_isolation(false)]
fn parse_ref_entries(elems: &Vec<Json>) -> (r: Result<Vec<ConfigNameAndPath>, ()>)
    ensures
        (r is Ok) == (spec_ref_entries(views_of_seq(elems@)) is Ok),
        r is Ok ==> refs_view(r->Ok_0@) == spec_ref_entries(views_of_seq(elems@))->Ok_0,
{
    let ghost all = views_of_seq(elems@);
    let mut out: Vec<ConfigNameAndPath> = Vec::new();
    let mut i: usize = 0;
    proof {
        assert(all.subrange(0, all.len() as int) =~= all);
        assert(refs_view(out@) =~= Seq::<(Seq<char>, Seq<char>)>::empty());
    }
    while i < elems.len()
        invariant
            i <= elems@.len(),
            all == views_of_seq(elems@),
            spec_ref_entries(all.subrange(i as int, all.len() as int)) is Ok ==> {
                &&& spec_ref_entries(all) is Ok
                &&& spec_ref_entries(all)->Ok_0 == refs_view(out@) + spec_ref_entries(
                    all.subrange(i as int, all.len() as int),
                )->Ok_0
            },
            spec_ref_entries(all.subrange(i as int, all.len() as int)) is Err ==> spec_ref_entries(
                all,
            ) is Err,
        decreases elems@.len() - i,
    {
        proof {
            lemma_ref_entries_suffix(all, i as int);
        }
        match parse_ref_entry(&elems[i]) {
            Result::Ok(e) => {
                let ghost prev = out@;
                out.push(e);
                proof {
                    assert(refs_view(out@) =~= refs_view(prev) + seq![
                        spec_ref_entry(all[i as int])->Ok_0,
                    ]);
                    if spec_ref_entries(all.subrange(i + 1, all.len() as int)) is Ok {
                        assert(refs_view(prev) + (seq![spec_ref_entry(all[i as int])->Ok_0]
                            + spec_ref_entries(all.subrange(i + 1, all.len() as int))->Ok_0) =~= refs_view(
                            out@,
                        ) + spec_ref_entries(all.subrange(i + 1, all.len() as int))->Ok_0);
                    }
                }
            }
            Result::Err(e) => {
                return Result::Err(e);
            }
        }
        i += 1;
    }
    proof {
        assert(all.subrange(all.len() as int, all.len() as int) =~= Seq::<JsonV>::empty());
        assert(refs_view(out@) + Seq::<(Seq<char>, Seq<char>)>::empty() =~= refs_view(out@));
    }
    Result::Ok(out)
}

/// Extracts an optional reference-list field.
fn get_ref_list(fields: &Vec<(String, Json)>, key: &str) -> (r: Result<
    Option<Vec<ConfigNameAndPath>>,
    (),
>)
    ensures
        (r is Ok) == (spec_ref_list(views_of_fields(fields@), key@) is Ok),
        r is Ok ==> opt_refs_view(r->Ok_0) == spec_ref_list(views_of_fields(fields@), key@)->Ok_0,
{
    match fields_get(fields, key) {
        Option::None => Result::Ok(Option::None),
        Option::Some(v) => match v {
            Json::Null => Result::Ok(Option::None),
            Json::Arr(es) => {
                proof {
                    lemma_views_of_seq(es@);
                }
                match parse_ref_entries(es) {
                    Result::Ok(rs) => Result::Ok(Option::Some(rs)),
                    Result::Err(e) => Result::Err(e),
                }
            }
            _ => Result::Err(()),
        },
    }
}

proof fn lemma_str_items_suffix(all: Seq<JsonV>, i: int)
    requires
        0 <= i < all.len(),
    ensures
        spec_str_items(all.subrange(i, all.len() as int)) == (match (
            all[i],
            spec_str_items(all.subrange(i + 1, all.len() as int)),
        ) {
            (JsonV::Str(x), Result::Ok(rest)) => Result::<_, ()>::Ok(seq![x] + rest),
            _ => Result::Err(()),
        }),
{
    let tail = all.subrange(i, all.len() as int);
    assert(tail.len() > 0);
    assert(tail[0] == all[i]);
    assert(tail.drop_first() =~= all.subrange(i + 1, all.len() as int));
}

/// Parses an array of strings.
#[verifier::loop_isolation(false)]
fn parse_str_items(elems: &Vec<Json>) -> (r: Result<Vec<String>, ()>)
    ensures
        (r is Ok) == (spec_str_items(views_of_seq(elems@)) is Ok),
        r is Ok ==> strs_view(r->Ok_0@) == spec_str_items(views_of_seq(elems@))->Ok_0,
{
    let ghost all = views_of_seq(elems@);
    let mut out: Vec<String> = Vec::new();
    let mut i: usize = 0;
    proof {
        assert(all.subrange(0, all.len() as int) =~= all);
        assert(strs_view(out@) =~= Seq::<Seq<char>>::empty());
    }
    while i < elems.len()
        invariant
            i <= elems@.len(),
            all == views_of_seq(elems@),
            spec_str_items(all.subrange(i as int, all.len() as int)) is Ok ==> {
                &&& spec_str_items(all) is Ok
                &&& spec_str_items(all)->Ok_0 == strs_view(out@) + spec_str_items(
                    all.subrange(i as int, all.len() as int),
                )->Ok_0
            },
            spec_str_items(all.subrange(i as int, all.len() as int)) is Err ==> spec_str_items(
                all,
            ) is Err,
        decreases elems@.len() - i,
    {
        proof {
            lemma_str_items_suffix(all, i as int);
        }
        match &elems[i] {
            Json::Str(s) => {
                let ghost prev = out@;
                out.push(s.clone());
                proof {
                    assert(strs_view(out@) =~= strs_view(prev) + seq![all[i as int]->Str_0]);
                    if spec_str_items(all.subrange(i + 1, all.len() as int)) is Ok {
                        assert(strs_view(prev) + (seq![all[i as int]->Str_0] + spec_str_items(
                            all.subrange(i + 1, all.len() as int),
                        )->Ok_0) =~= strs_view(out@) + spec_str_items(
                            all.subrange(i + 1, all.len() as int),
                        )->Ok_0);
                    }
                }
            }
            _ => {
                return Result::Err(());
            }
        }
        i += 1;
    }
    proof {
        assert(all.subrange(all.len() as int, all.len() as int) =~= Seq::<JsonV>::empty());
        assert(strs_view(out@) + Seq::<Seq<char>>::empty() =~= strs_view(out@));
    }
    Result::Ok(out)
}

/// Extracts an optional string-array field.
fn get_str_list(fields: &Vec<(String, Json)>, key: &str) -> (r: Result<Option<Vec<String>>, ()>)
    ensures
        (r is Ok) == (spec_str_list(views_of_fields(fields@), key@) is Ok),
        r is Ok ==> opt_strs_view(r->Ok_0) == spec_str_list(views_of_fields(fields@), key@)->Ok_0,
{
    match fields_get(fields, key) {
        Option::None => Result::Ok(Option::None),
        Option::Some(v) => match v {
            Json::Null => Result::Ok(Option::None),
            Json::Arr(es) => {
                proof {
                    lemma_views_of_seq(es@);
                }
                match parse_str_items(es) {
                    Result::Ok(rs) => Result::Ok(Option::Some(rs)),
                    Result::Err(e) => Result::Err(e),
                }
            }
            _ => Result::Err(()),
        },
    }
}

/// One step of `spec_extra_fields` taken from the middle of a field list.
proof fn lemma_extra_fields_suffix(
    all: Seq<(Seq<char>, JsonV)>,
    known: spec_fn(Seq<char>) -> bool,
    i: int,
)
    requires
        0 <= i < all.len(),
    ensures
        spec_extra_fields(all.subrange(i, all.len() as int), known) == if known(all[i].0) {
            spec_extra_fields(all.subrange(i + 1, all.len() as int), known)
        } else {
            seq![all[i]] + spec_extra_fields(all.subrange(i + 1, all.len() as int), known)
        },
{
    let tail = all.subrange(i, all.len() as int);
    assert(tail.len() > 0);
    assert(tail[0] == all[i]);
    assert(tail.drop_first() =~= all.subrange(i + 1, all.len() as int));
}

/// The vendor document's fixed schema keys.
pub open spec fn vendor_known(k: Seq<char>) -> bool {
    ||| k == "name"@
    ||| k == "version"@
    ||| k == "machine_model_list"@
    ||| k == "process_list"@
    ||| k == "filament_list"@
    ||| k == "machine_list"@
}

/// Collects the fields of a vendor document that its schema does not know.
#[verifier::loop_isolation(false)]
fn vendor_extra(fields: &Vec<(String, Json)>) -> (r: Extra)
    ensures
        r@ == spec_extra_fields(views_of_fields(fields@), |k: Seq<char>| vendor_known(k)),
{
    let ghost all = views_of_fields(fields@);
    let ghost known = |k: Seq<char>| vendor_known(k);
    let mut out: Vec<(String, Json)> = Vec::new();
    let mut i: usize = 0;
    proof {
        assert(all.subrange(0, all.len() as int) =~= all);
        assert(views_of_fields(out@) =~= Seq::<(Seq<char>, JsonV)>::empty());
    }
    while i < fields.len()
        invariant
            i <= fields@.len(),
            spec_extra_fields(all, known) == views_of_fields(out@) + spec_extra_fields(
                all.subrange(i as int, all.len() as int),
                known,
            ),
        decreases fields@.len() - i,
    {
        proof {
            lemma_extra_fields_suffix(all, known, i as int);
        }
        let key = &fields[i].0;
        let is_known = str_eq(key, "name") || str_eq(key, "version") || str_eq(
            key,
            "machine_model_list",
        ) || str_eq(key, "process_list") || str_eq(key, "filament_list") || str_eq(
            key,
            "machine_list",
        );
        if !is_known {
            let ghost prev = out@;
            let cloned = clone_json(&fields[i].1);
            out.push((fields[i].0.clone(), cloned));
            proof {
                assert(views_of_fields(out@) =~= views_of_fields(prev) + seq![all[i as int]]);
                assert(views_of_fields(prev) + (seq![all[i as int]] + spec_extra_fields(
                    all.subrange(i + 1, all.len() as int),
                    known,
                )) =~= views_of_fields(out@) + spec_extra_fields(
                    all.subrange(i + 1, all.len() as int),
                    known,
                ));
            }
        }
        i += 1;
    }
    proof {
        assert(all.subrange(all.len() as int, all.len() as int) =~= Seq::<
            (Seq<char>, JsonV),
        >::empty());
        assert(views_of_fields(out@) + Seq::<(Seq<char>, JsonV)>::empty() =~= views_of_fields(
            out@,
        ));
    }
    Extra(out)
}

/// A vendor document: its name, optional version, the four optional
/// reference lists, and every other field in `extra`.
#[derive(Debug)]
pub struct VendorJsonSchema {
    pub name: String,
    pub version: Option<String>,
    pub machine_model_list: Option<Vec<ConfigNameAndPath>>,
    pub process_list: Option<Vec<ConfigNameAndPath>>,
    pub filament_list: Option<Vec<ConfigNameAndPath>>,
    pub machine_list: Option<Vec<ConfigNameAndPath>>,
    pub extra: Extra,
}

/// Whether a document has the vendor schema's shape.
pub open spec fn spec_vendor_ok(v: JsonV) -> bool {
    &&& v is Obj
    &&& spec_req_str(v->Obj_0, "name"@) is Ok
    &&& spec_opt_str(v->Obj_0, "version"@) is Ok
    &&& spec_ref_list(v->Obj_0, "machine_model_list"@) is Ok
    &&& spec_ref_list(v->Obj_0, "process_list"@) is Ok
    &&& spec_ref_list(v->Obj_0, "filament_list"@) is Ok
    &&& spec_ref_list(v->Obj_0, "machine_list"@) is Ok
}

/// What parsing a vendor document yields, given that it has the shape.
pub open spec fn spec_vendor_matches(c: VendorJsonSchema, v: JsonV) -> bool {
    let fs = v->Obj_0;
    &&& c.name@ == spec_req_str(fs, "name"@)->Ok_0
    &&& opt_str_view(c.version) == spec_opt_str(fs, "version"@)->Ok_0
    &&& opt_refs_view(c.machine_model_list) == spec_ref_list(fs, "machine_model_list"@)->Ok_0
    &&& opt_refs_view(c.process_list) == spec_ref_list(fs, "process_list"@)->Ok_0
    &&& opt_refs_view(c.filament_list) == spec_ref_list(fs, "filament_list"@)->Ok_0
    &&& opt_refs_view(c.machine_list) == spec_ref_list(fs, "machine_list"@)->Ok_0
    &&& c.extra@ == spec_extra_fields(fs, |k: Seq<char>| vendor_known(k))
}

impl VendorJsonSchema {
    /// Parses a vendor document, routing unknown fields into `extra`.
    pub fn from_json(v: &Json) -> (r: Result<VendorJsonSchema, String>)
        ensures
            (r is Ok) == spec_vendor_ok(v@),
            r is Ok ==> spec_vendor_matches(r->Ok_0, v@),
    {
        match v {
            Json::Obj(fs) => {
                proof {
                    lemma_views_of_fields(fs@);
                }
                let name = match get_req_str(fs, "name") {
                    Result::Ok(s) => s,
                    Result::Err(_) => {
                        return Result::Err(String::from_str(
                            "missing or mistyped field 'name'",
                        ));
                    }
                };
                let version = match get_opt_str(fs, "version") {
                    Result::Ok(o) => o,
                    Result::Err(_) => {
                        return Result::Err(String::from_str("mistyped field 'version'"));
                    }
                };
                let machine_model_list = match get_ref_list(fs, "machine_model_list") {
                    Result::Ok(o) => o,
                    Result::Err(_) => {
                        return Result::Err(String::from_str(
                            "mistyped field 'machine_model_list'",
                        ));
                    }
                };
                let process_list = match get_ref_list(fs, "process_list") {
                    Result::Ok(o) => o,
                    Result::Err(_) => {
                        return Result::Err(String::from_str("mistyped field 'process_list'"));
                    }
                };
                let filament_list = match get_ref_list(fs, "filament_list") {
                    Result::Ok(o) => o,
                    Result::Err(_) => {
                        return Result::Err(String::from_str("mistyped field 'filament_list'"));
                    }
                };
                let machine_list = match get_ref_list(fs, "machine_list") {
                    Result::Ok(o) => o,
                    Result::Err(_) => {
                        return Result::Err(String::from_str("mistyped field 'machine_list'"));
                    }
                };
                let extra = vendor_extra(fs);
                Result::Ok(
                    VendorJsonSchema {
                        name,
                        version,
                        machine_model_list,
                        process_list,
                        filament_list,
                        machine_list,
                        extra,
                    },
                )
            }
            _ => Result::Err(String::from_str("expected a JSON object")),
        }
    }
}

/// The fixed schema keys shared by filament and process documents.
pub open spec fn basic_known(k: Seq<char>) -> bool {
    ||| k == "name"@
    ||| k == "type"@
    ||| k == "inherits"@
    ||| k == "instantiation"@
}

/// Collects the fields a filament or process schema does not know.
#[verifier::loop_isolation(false)]
fn basic_extra(fields: &Vec<(String, Json)>) -> (r: Extra)
    ensures
        r@ == spec_extra_fields(views_of_fields(fields@), |k: Seq<char>| basic_known(k)),
{
    let ghost all = views_of_fields(fields@);
    let ghost known = |k: Seq<char>| basic_known(k);
    let mut out: Vec<(String, Json)> = Vec::new();
    let mut i: usize = 0;
    proof {
        assert(all.subrange(0, all.len() as int) =~= all);
        assert(views_of_fields(out@) =~= Seq::<(Seq<char>, JsonV)>::empty());
    }
    while i < fields.len()
        invariant
            i <= fields@.len(),
            spec_extra_fields(all, known) == views_of_fields(out@) + spec_extra_fields(
                all.subrange(i as int, all.len() as int),
                known,
            ),
        decreases fields@.len() - i,
    {
        proof {
            lemma_extra_fields_suffix(all, known, i as int);
        }
        let key = &fields[i].0;
        let is_known = str_eq(key, "name") || str_eq(key, "type") || str_eq(key, "inherits")
            || str_eq(key, "instantiation");
        if !is_known {
            let ghost prev = out@;
            let cloned = clone_json(&fields[i].1);
            out.push((fields[i].0.clone(), cloned));
            proof {
                assert(views_of_fields(out@) =~= views_of_fields(prev) + seq![all[i as int]]);
                assert(views_of_fields(prev) + (seq![all[i as int]] + spec_extra_fields(
                    all.subrange(i + 1, all.len() as int),
                    known,
                )) =~= views_of_fields(out@) + spec_extra_fields(
                    all.subrange(i + 1, all.len() as int),
                    known,
                ));
            }
        }
        i += 1;
    }
    proof {
        assert(all.subrange(all.len() as int, all.len() as int) =~= Seq::<
            (Seq<char>, JsonV),
        >::empty());
        assert(views_of_fields(out@) + Seq::<(Seq<char>, JsonV)>::empty() =~= views_of_fields(
            out@,
        ));
    }
    Extra(out)
}

/// The fixed schema keys of a machine-variant ("printer") document.
pub open spec fn variant_known(k: Seq<char>) -> bool {
    ||| k == "name"@
    ||| k == "type"@
    ||| k == "nozzle_diameter"@
    ||| k == "inherits"@
    ||| k == "instantiation"@
    ||| k == "printer_model"@
    ||| k == "printer_variant"@
}

/// Collects the fields a machine-variant schema does not know.
#[verifier::loop_isolation(false)]
fn variant_extra(fields: &Vec<(String, Json)>) -> (r: Extra)
    ensures
        r@ == spec_extra_fields(views_of_fields(fields@), |k: Seq<char>| variant_known(k)),
{
    let ghost all = views_of_fields(fields@);
    let ghost known = |k: Seq<char>| variant_known(k);
    let mut out: Vec<(String, Json)> = Vec::new();
    let mut i: usize = 0;
    proof {
        assert(all.subrange(0, all.len() as int) =~= all);
        assert(views_of_fields(out@) =~= Seq::<(Seq<char>, JsonV)>::empty());
    }
    while i < fields.len()
        invariant
            i <= fields@.len(),
            spec_extra_fields(all, known) == views_of_fields(out@) + spec_extra_fields(
                all.subrange(i as int, all.len() as int),
                known,
            ),
        decreases fields@.len() - i,
    {
        proof {
            lemma_extra_fields_suffix(all, known, i as int);
        }
        let key = &fields[i].0;
        let is_known = str_eq(key, "name") || str_eq(key, "type") || str_eq(
            key,
            "nozzle_diameter",
        ) || str_eq(key, "inherits") || str_eq(key, "instantiation") || str_eq(
            key,
            "printer_model",
        ) || str_eq(key, "printer_variant");
        if !is_known {
            let ghost prev = out@;
            let cloned = clone_json(&fields[i].1);
            out.push((fields[i].0.clone(), cloned));
            proof {
                assert(views_of_fields(out@) =~= views_of_fields(prev) + seq![all[i as int]]);
                assert(views_of_fields(prev) + (seq![all[i as int]] + spec_extra_fields(
                    all.subrange(i + 1, all.len() as int),
                    known,
                )) =~= views_of_fields(out@) + spec_extra_fields(
                    all.subrange(i + 1, all.len() as int),
                    known,
                ));
            }
        }
        i += 1;
    }
    proof {
        assert(all.subrange(all.len() as int, all.len() as int) =~= Seq::<
            (Seq<char>, JsonV),
        >::empty());
        assert(views_of_fields(out@) + Seq::<(Seq<char>, JsonV)>::empty() =~= views_of_fields(
            out@,
        ));
    }
    Extra(out)
}

/// The fixed schema keys of a machine-model document.
pub open spec fn model_known(k: Seq<char>) -> bool {
    ||| k == "name"@
    ||| k == "type"@
    ||| k == "nozzle_diameter"@
    ||| k == "family"@
}

/// Collects the fields a machine-model schema does not know.
#[verifier::loop_isolation(false)]
fn model_extra(fields: &Vec<(String, Json)>) -> (r: Extra)
    ensures
        r@ == spec_extra_fields(views_of_fields(fields@), |k: Seq<char>| model_known(k)),
{
    let ghost all = views_of_fields(fields@);
    let ghost known = |k: Seq<char>| model_known(k);
    let mut out: Vec<(String, Json)> = Vec::new();
    let mut i: usize = 0;
    proof {
        assert(all.subrange(0, all.len() as int) =~= all);
        assert(views_of_fields(out@) =~= Seq::<(Seq<char>, JsonV)>::empty());
    }
    while i < fields.len()
        invariant
            i <= fields@.len(),
            spec_extra_fields(all, known) == views_of_fields(out@) + spec_extra_fields(
                all.subrange(i as int, all.len() as int),
                known,
            ),
        decreases fields@.len() - i,
    {
        proof {
            lemma_extra_fields_suffix(all, known, i as int);
        }
        let key = &fields[i].0;
        let is_known = str_eq(key, "name") || str_eq(key, "type") || str_eq(
            key,
            "nozzle_diameter",
        ) || str_eq(key, "family");
        if !is_known {
            let ghost prev = out@;
            let cloned = clone_json(&fields[i].1);
            out.push((fields[i].0.clone(), cloned));
            proof {
                assert(views_of_fields(out@) =~= views_of_fields(prev) + seq![all[i as int]]);
                assert(views_of_fields(prev) + (seq![all[i as int]] + spec_extra_fields(
                    all.subrange(i + 1, all.len() as int),
                    known,
                )) =~= views_of_fields(out@) + spec_extra_fields(
                    all.subrange(i + 1, all.len() as int),
                    known,
                ));
            }
        }
        i += 1;
    }
    proof {
        assert(all.subrange(all.len() as int, all.len() as int) =~= Seq::<
            (Seq<char>, JsonV),
        >::empty());
        assert(views_of_fields(out@) + Seq::<(Seq<char>, JsonV)>::empty() =~= views_of_fields(
            out@,
        ));
    }
    Extra(out)
}

/// A filament document.
#[derive(Debug)]
pub struct FilamentJsonSchema {
    pub name: String,
    pub preset_type: Option<String>,
    pub inherits: Option<String>,
    pub instantiation: Option<String>,
    pub extra: Extra,
}

/// A slicing-process document.
#[derive(Debug)]
pub struct ProcessJsonSchema {
    pub name: String,
    pub preset_type: Option<String>,
    pub inherits: Option<String>,
    pub instantiation: Option<String>,
    pub extra: Extra,
}

/// A machine-variant ("printer") document.
#[derive(Debug)]
pub struct PrinterVariantJsonSchema {
    pub name: String,
    pub preset_type: Option<String>,
    pub nozzle_diameter: Option<Vec<String>>,
    pub inherits: Option<String>,
    pub instantiation: Option<String>,
    pub printer_model: Option<String>,
    pub printer_variant: Option<String>,
    pub extra: Extra,
}

/// A machine-model document.
#[derive(Debug)]
pub struct PrinterModelJsonSchema {
    pub name: String,
    pub preset_type: String,
    pub nozzle_diameter: String,
    pub family: String,
    pub extra: Extra,
}

/// Whether a document has the filament or process schema's shape.
pub open spec fn spec_basic_ok(v: JsonV) -> bool {
    &&& v is Obj
    &&& spec_req_str(v->Obj_0, "name"@) is Ok
    &&& spec_opt_str(v->Obj_0, "type"@) is Ok
    &&& spec_opt_str(v->Obj_0, "inherits"@) is Ok
    &&& spec_opt_str(v->Obj_0, "instantiation"@) is Ok
}

/// What parsing a filament document yields, given that it has the shape.
pub open spec fn spec_filament_matches(c: FilamentJsonSchema, v: JsonV) -> bool {
    let fs = v->Obj_0;
    &&& c.name@ == spec_req_str(fs, "name"@)->Ok_0
    &&& opt_str_view(c.preset_type) == spec_opt_str(fs, "type"@)->Ok_0
    &&& opt_str_view(c.inherits) == spec_opt_str(fs, "inherits"@)->Ok_0
    &&& opt_str_view(c.instantiation) == spec_opt_str(fs, "instantiation"@)->Ok_0
    &&& c.extra@ == spec_extra_fields(fs, |k: Seq<char>| basic_known(k))
}

/// What parsing a process document yields, given that it has the shape.
pub open spec fn spec_process_matches(c: ProcessJsonSchema, v: JsonV) -> bool {
    let fs = v->Obj_0;
    &&& c.name@ == spec_req_str(fs, "name"@)->Ok_0
    &&& opt_str_view(c.preset_type) == spec_opt_str(fs, "type"@)->Ok_0
    &&& opt_str_view(c.inherits) == spec_opt_str(fs, "inherits"@)->Ok_0
    &&& opt_str_view(c.instantiation) == spec_opt_str(fs, "instantiation"@)->Ok_0
    &&& c.extra@ == spec_extra_fields(fs, |k: Seq<char>| basic_known(k))
}

/// Whether a document has the machine-variant schema's shape.
pub open spec fn spec_variant_ok(v: JsonV) -> bool {
    &&& v is Obj
    &&& spec_req_str(v->Obj_0, "name"@) is Ok
    &&& spec_opt_str(v->Obj_0, "type"@) is Ok
    &&& spec_str_list(v->Obj_0, "nozzle_diameter"@) is Ok
    &&& spec_opt_str(v->Obj_0, "inherits"@) is Ok
    &&& spec_opt_str(v->Obj_0, "instantiation"@) is Ok
    &&& spec_opt_str(v->Obj_0, "printer_model"@) is Ok
    &&& spec_opt_str(v->Obj_0, "printer_variant"@) is Ok
}

/// What parsing a machine-variant document yields, given the shape.
pub open spec fn spec_variant_matches(c: PrinterVariantJsonSchema, v: JsonV) -> bool {
    let fs = v->Obj_0;
    &&& c.name@ == spec_req_str(fs, "name"@)->Ok_0
    &&& opt_str_view(c.preset_type) == spec_opt_str(fs, "type"@)->Ok_0
    &&& opt_strs_view(c.nozzle_diameter) == spec_str_list(fs, "nozzle_diameter"@)->Ok_0
    &&& opt_str_view(c.inherits) == spec_opt_str(fs, "inherits"@)->Ok_0
    &&& opt_str_view(c.instantiation) == spec_opt_str(fs, "instantiation"@)->Ok_0
    &&& opt_str_view(c.printer_model) == spec_opt_str(fs, "printer_model"@)->Ok_0
    &&& opt_str_view(c.printer_variant) == spec_opt_str(fs, "printer_variant"@)->Ok_0
    &&& c.extra@ == spec_extra_fields(fs, |k: Seq<char>| variant_known(k))
}

/// Whether a document has the machine-model schema's shape.
pub open spec fn spec_model_ok(v: JsonV) -> bool {
    &&& v is Obj
    &&& spec_req_str(v->Obj_0, "name"@) is Ok
    &&& spec_req_str(v->Obj_0, "type"@) is Ok
    &&& spec_req_str(v->Obj_0, "nozzle_diameter"@) is Ok
    &&& spec_req_str(v->Obj_0, "family"@) is Ok
}

/// What parsing a machine-model document yields, given the shape.
pub open spec fn spec_model_matches(c: PrinterModelJsonSchema, v: JsonV) -> bool {
    let fs = v->Obj_0;
    &&& c.name@ == spec_req_str(fs, "name"@)->Ok_0
    &&& c.preset_type@ == spec_req_str(fs, "type"@)->Ok_0
    &&& c.nozzle_diameter@ == spec_req_str(fs, "nozzle_diameter"@)->Ok_0
    &&& c.family@ == spec_req_str(fs, "family"@)->Ok_0
    &&& c.extra@ == spec_extra_fields(fs, |k: Seq<char>| model_known(k))
}

impl FilamentJsonSchema {
    /// Parses a filament document, routing unknown fields into `extra`.
    pub fn from_json(v: &Json) -> (r: Result<FilamentJsonSchema, String>)
        ensures
            (r is Ok) == spec_basic_ok(v@),
            r is Ok ==> spec_filament_matches(r->Ok_0, v@),
    {
        match v {
            Json::Obj(fs) => {
                proof {
                    lemma_views_of_fields(fs@);
                }
                let name = match get_req_str(fs, "name") {
                    Result::Ok(s) => s,
                    Result::Err(_) => {
                        return Result::Err(String::from_str(
                            "missing or mistyped field 'name'",
                        ));
                    }
                };
                let preset_type = match get_opt_str(fs, "type") {
                    Result::Ok(o) => o,
                    Result::Err(_) => {
                        return Result::Err(String::from_str("mistyped field 'type'"));
                    }
                };
                let inherits = match get_opt_str(fs, "inherits") {
                    Result::Ok(o) => o,
                    Result::Err(_) => {
                        return Result::Err(String::from_str("mistyped field 'inherits'"));
                    }
                };
                let instantiation = match get_opt_str(fs, "instantiation") {
                    Result::Ok(o) => o,
                    Result::Err(_) => {
                        return Result::Err(String::from_str("mistyped field 'instantiation'"));
                    }
                };
                let extra = basic_extra(fs);
                Result::Ok(FilamentJsonSchema { name, preset_type, inherits, instantiation, extra })
            }
            _ => Result::Err(String::from_str("expected a JSON object")),
        }
    }
}

impl ProcessJsonSchema {
    /// Parses a process document, routing unknown fields into `extra`.
    pub fn from_json(v: &Json) -> (r: Result<ProcessJsonSchema, String>)
        ensures
            (r is Ok) == spec_basic_ok(v@),
            r is Ok ==> spec_process_matches(r->Ok_0, v@),
    {
        match v {
            Json::Obj(fs) => {
                proof {
                    lemma_views_of_fields(fs@);
                }
                let name = match get_req_str(fs, "name") {
                    Result::Ok(s) => s,
                    Result::Err(_) => {
                        return Result::Err(String::from_str(
                            "missing or mistyped field 'name'",
                        ));
                    }
                };
                let preset_type = match get_opt_str(fs, "type") {
                    Result::Ok(o) => o,
                    Result::Err(_) => {
                        return Result::Err(String::from_str("mistyped field 'type'"));
                    }
                };
                let inherits = match get_opt_str(fs, "inherits") {
                    Result::Ok(o) => o,
                    Result::Err(_) => {
                        return Result::Err(String::from_str("mistyped field 'inherits'"));
                    }
                };
                let instantiation = match get_opt_str(fs, "instantiation") {
                    Result::Ok(o) => o,
                    Result::Err(_) => {
                        return Result::Err(String::from_str("mistyped field 'instantiation'"));
                    }
                };
                let extra = basic_extra(fs);
                Result::Ok(ProcessJsonSchema { name, preset_type, inherits, instantiation, extra })
            }
            _ => Result::Err(String::from_str("expected a JSON object")),
        }
    }
}

impl PrinterVariantJsonSchema {
    /// Parses a machine-variant document, routing unknown fields into
    /// `extra`.
    pub fn from_json(v: &Json) -> (r: Result<PrinterVariantJsonSchema, String>)
        ensures
            (r is Ok) == spec_variant_ok(v@),
            r is Ok ==> spec_variant_matches(r->Ok_0, v@),
    {
        match v {
            Json::Obj(fs) => {
                proof {
                    lemma_views_of_fields(fs@);
                }
                let name = match get_req_str(fs, "name") {
                    Result::Ok(s) => s,
                    Result::Err(_) => {
                        return Result::Err(String::from_str(
                            "missing or mistyped field 'name'",
                        ));
                    }
                };
                let preset_type = match get_opt_str(fs, "type") {
                    Result::Ok(o) => o,
                    Result::Err(_) => {
                        return Result::Err(String::from_str("mistyped field 'type'"));
                    }
                };
                let nozzle_diameter = match get_str_list(fs, "nozzle_diameter") {
                    Result::Ok(o) => o,
                    Result::Err(_) => {
                        return Result::Err(String::from_str("mistyped field 'nozzle_diameter'"));
                    }
                };
                let inherits = match get_opt_str(fs, "inherits") {
                    Result::Ok(o) => o,
                    Result::Err(_) => {
                        return Result::Err(String::from_str("mistyped field 'inherits'"));
                    }
                };
                let instantiation = match get_opt_str(fs, "instantiation") {
                    Result::Ok(o) => o,
                    Result::Err(_) => {
                        return Result::Err(String::from_str("mistyped field 'instantiation'"));
                    }
                };
                let printer_model = match get_opt_str(fs, "printer_model") {
                    Result::Ok(o) => o,
                    Result::Err(_) => {
                        return Result::Err(String::from_str("mistyped field 'printer_model'"));
                    }
                };
                let printer_variant = match get_opt_str(fs, "printer_variant") {
                    Result::Ok(o) => o,
                    Result::Err(_) => {
                        return Result::Err(String::from_str("mistyped field 'printer_variant'"));
                    }
                };
                let extra = variant_extra(fs);
                Result::Ok(
                    PrinterVariantJsonSchema {
                        name,
                        preset_type,
                        nozzle_diameter,
                        inherits,
                        instantiation,
                        printer_model,
                        printer_variant,
                        extra,
                    },
                )
            }
            _ => Result::Err(String::from_str("expected a JSON object")),
        }
    }
}

impl PrinterModelJsonSchema {
    /// Parses a machine-model document, routing unknown fields into
    /// `extra`.
    pub fn from_json(v: &Json) -> (r: Result<PrinterModelJsonSchema, String>)
        ensures
            (r is Ok) == spec_model_ok(v@),
            r is Ok ==> spec_model_matches(r->Ok_0, v@),
    {
        match v {
            Json::Obj(fs) => {
                proof {
                    lemma_views_of_fields(fs@);
                }
                let name = match get_req_str(fs, "name") {
                    Result::Ok(s) => s,
                    Result::Err(_) => {
                        return Result::Err(String::from_str(
                            "missing or mistyped field 'name'",
                        ));
                    }
                };
                let preset_type = match get_req_str(fs, "type") {
                    Result::Ok(s) => s,
                    Result::Err(_) => {
                        return Result::Err(String::from_str(
                            "missing or mistyped field 'type'",
                        ));
                    }
                };
                let nozzle_diameter = match get_req_str(fs, "nozzle_diameter") {
                    Result::Ok(s) => s,
                    Result::Err(_) => {
                        return Result::Err(String::from_str(
                            "missing or mistyped field 'nozzle_diameter'",
                        ));
                    }
                };
                let family = match get_req_str(fs, "family") {
                    Result::Ok(s) => s,
                    Result::Err(_) => {
                        return Result::Err(String::from_str(
                            "missing or mistyped field 'family'",
                        ));
                    }
                };
                let extra = model_extra(fs);
                Result::Ok(
                    PrinterModelJsonSchema { name, preset_type, nozzle_diameter, family, extra },
                )
            }
            _ => Result::Err(String::from_str("expected a JSON object")),
        }
    }
}

/// An optional string, as the JSON value it is written as: the string, or
/// null when absent.
pub open spec fn opt_str_json(o: Option<Seq<char>>) -> JsonV {
    match o {
        Option::Some(s) => JsonV::Str(s),
        Option::None => JsonV::Null,
    }
}

/// A reference-list entry, as the object it is written as.
pub open spec fn ref_entry_json(e: (Seq<char>, Seq<char>)) -> JsonV {
    JsonV::Obj(seq![("name"@, JsonV::Str(e.0)), ("sub_path"@, JsonV::Str(e.1))])
}

/// The items of a reference list, each as its object.
pub open spec fn refs_json_items(l: Seq<(Seq<char>, Seq<char>)>) -> Seq<JsonV> {
    Seq::new(l.len(), |i: int| ref_entry_json(l[i]))
}

/// An optional reference list, as the JSON value it is written as.
pub open spec fn opt_refs_json(o: Option<Seq<(Seq<char>, Seq<char>)>>) -> JsonV {
    match o {
        Option::Some(l) => JsonV::Arr(refs_json_items(l)),
        Option::None => JsonV::Null,
    }
}

/// An optional string list, as the JSON value it is written as.
pub open spec fn opt_strs_json(o: Option<Seq<Seq<char>>>) -> JsonV {
    match o {
        Option::Some(l) => JsonV::Arr(Seq::new(l.len(), |i: int| JsonV::Str(l[i]))),
        Option::None => JsonV::Null,
    }
}

/// Writes an optional string field value.
fn opt_str_to_json(o: &Option<String>) -> (r: Json)
    ensures
        r@ == opt_str_json(opt_str_view(*o)),
{
    match o {
        Option::Some(s) => Json::Str(s.clone()),
        Option::None => Json::Null,
    }
}

/// Writes a reference list field value.
#[verifier::loop_isolation(false)]
fn opt_refs_to_json(o: &Option<Vec<ConfigNameAndPath>>) -> (r: Json)
    ensures
        r@ == opt_refs_json(opt_refs_view(*o)),
{
    match o {
        Option::None => Json::Null,
        Option::Some(l) => {
            let ghost items = refs_json_items(refs_view(l@));
            let mut out: Vec<Json> = Vec::new();
            let mut i: usize = 0;
            while i < l.len()
                invariant
                    i <= l@.len(),
                    views_of_seq(out@) == items.subrange(0, i as int),
                decreases l@.len() - i,
            {
                let mut e: Vec<(String, Json)> = Vec::new();
                e.push((String::from_str("name"), Json::Str(l[i].name.clone())));
                e.push((String::from_str("sub_path"), Json::Str(l[i].sub_path.clone())));
                proof {
                    assert(views_of_fields(e@) =~= seq![
                        ("name"@, JsonV::Str(l@[i as int].name@)),
                        ("sub_path"@, JsonV::Str(l@[i as int].sub_path@)),
                    ]);
                    lemma_views_of_fields(e@);
                }
                out.push(Json::Obj(e));
                proof {
                    assert(views_of_seq(out@) =~= items.subrange(0, i + 1));
                }
                i += 1;
            }
            proof {
                assert(items.subrange(0, items.len() as int) =~= items);
                lemma_views_of_seq(out@);
            }
            Json::Arr(out)
        }
    }
}

/// Writes a string list field value.
#[verifier::loop_isolation(false)]
fn opt_strs_to_json(o: &Option<Vec<String>>) -> (r: Json)
    ensures
        r@ == opt_strs_json(opt_strs_view(*o)),
{
    match o {
        Option::None => Json::Null,
        Option::Some(l) => {
            let ghost items = Seq::new(strs_view(l@).len(), |i: int| JsonV::Str(strs_view(l@)[i]));
            let mut out: Vec<Json> = Vec::new();
            let mut i: usize = 0;
            while i < l.len()
                invariant
                    i <= l@.len(),
                    views_of_seq(out@) == items.subrange(0, i as int),
                decreases l@.len() - i,
            {
                out.push(Json::Str(l[i].clone()));
                proof {
                    assert(views_of_seq(out@) =~= items.subrange(0, i + 1));
                }
                i += 1;
            }
            proof {
                assert(items.subrange(0, items.len() as int) =~= items);
                lemma_views_of_seq(out@);
            }
            Json::Arr(out)
        }
    }
}

/// Appends an equal copy of every field of `src` to `out`.
#[verifier::loop_isolation(false)]
fn clone_fields_into(out: &mut Vec<(String, Json)>, src: &Vec<(String, Json)>)
    ensures
        views_of_fields(final(out)@) == views_of_fields(old(out)@) + views_of_fields(src@),
{
    let mut i: usize = 0;
    proof {
        assert(views_of_fields(out@) =~= views_of_fields(old(out)@) + views_of_fields(
            src@,
        ).subrange(0, 0));
    }
    while i < src.len()
        invariant
            i <= src@.len(),
            views_of_fields(out@) == views_of_fields(old(out)@) + views_of_fields(src@).subrange(
                0,
                i as int,
            ),
        decreases src@.len() - i,
    {
        let ghost prev = out@;
        let cloned = clone_json(&src[i].1);
        out.push((src[i].0.clone(), cloned));
        proof {
            assert(views_of_fields(out@) =~= views_of_fields(prev) + seq![
                (src@[i as int].0@, crate::json::json_view(src@[i as int].1)),
            ]);
            assert(views_of_fields(src@).subrange(0, i + 1) =~= views_of_fields(src@).subrange(
                0,
                i as int,
            ) + seq![(src@[i as int].0@, crate::json::json_view(src@[i as int].1))]);
            assert(views_of_fields(out@) =~= views_of_fields(old(out)@) + views_of_fields(
                src@,
            ).subrange(0, i + 1));
        }
        i += 1;
    }
    proof {
        assert(views_of_fields(src@).subrange(0, src@.len() as int) =~= views_of_fields(src@));
    }
}

/// The document a vendor value is written as: the fixed fields in schema
/// order, absent options as null, then the extra fields unchanged.
pub open spec fn spec_vendor_to_json(c: VendorJsonSchema) -> JsonV {
    JsonV::Obj(
        seq![
            ("name"@, JsonV::Str(c.name@)),
            ("version"@, opt_str_json(opt_str_view(c.version))),
            ("machine_model_list"@, opt_refs_json(opt_refs_view(c.machine_model_list))),
            ("process_list"@, opt_refs_json(opt_refs_view(c.process_list))),
            ("filament_list"@, opt_refs_json(opt_refs_view(c.filament_list))),
            ("machine_list"@, opt_refs_json(opt_refs_view(c.machine_list))),
        ] + c.extra@,
    )
}

impl VendorJsonSchema {
    /// Writes the vendor document back as JSON, extra fields unchanged.
    pub fn to_json(&self) -> (r: Json)
        ensures
            r@ == spec_vendor_to_json(*self),
    {
        let mut out: Vec<(String, Json)> = Vec::new();
        out.push((String::from_str("name"), Json::Str(self.name.clone())));
        out.push((String::from_str("version"), opt_str_to_json(&self.version)));
        out.push((String::from_str("machine_model_list"), opt_refs_to_json(
            &self.machine_model_list,
        )));
        out.push((String::from_str("process_list"), opt_refs_to_json(&self.process_list)));
        out.push((String::from_str("filament_list"), opt_refs_to_json(&self.filament_list)));
        out.push((String::from_str("machine_list"), opt_refs_to_json(&self.machine_list)));
        let ghost head = views_of_fields(out@);
        proof {
            assert(head =~= seq![
                ("name"@, JsonV::Str(self.name@)),
                ("version"@, opt_str_json(opt_str_view(self.version))),
                ("machine_model_list"@, opt_refs_json(opt_refs_view(self.machine_model_list))),
                ("process_list"@, opt_refs_json(opt_refs_view(self.process_list))),
                ("filament_list"@, opt_refs_json(opt_refs_view(self.filament_list))),
                ("machine_list"@, opt_refs_json(opt_refs_view(self.machine_list))),
            ]);
        }
        clone_fields_into(&mut out, &self.extra.0);
        proof {
            lemma_views_of_fields(out@);
        }
        Json::Obj(out)
    }
}

/// The document a filament value is written as.
pub open spec fn spec_filament_to_json(c: FilamentJsonSchema) -> JsonV {
    JsonV::Obj(
        seq![
            ("name"@, JsonV::Str(c.name@)),
            ("type"@, opt_str_json(opt_str_view(c.preset_type))),
            ("inherits"@, opt_str_json(opt_str_view(c.inherits))),
            ("instantiation"@, opt_str_json(opt_str_view(c.instantiation))),
        ] + c.extra@,
    )
}

impl FilamentJsonSchema {
    /// Writes the filament document back as JSON, extra fields unchanged.
    pub fn to_json(&self) -> (r: Json)
        ensures
            r@ == spec_filament_to_json(*self),
    {
        let mut out: Vec<(String, Json)> = Vec::new();
        out.push((String::from_str("name"), Json::Str(self.name.clone())));
        out.push((String::from_str("type"), opt_str_to_json(&self.preset_type)));
        out.push((String::from_str("inherits"), opt_str_to_json(&self.inherits)));
        out.push((String::from_str("instantiation"), opt_str_to_json(&self.instantiation)));
        proof {
            assert(views_of_fields(out@) =~= seq![
                ("name"@, JsonV::Str(self.name@)),
                ("type"@, opt_str_json(opt_str_view(self.preset_type))),
                ("inherits"@, opt_str_json(opt_str_view(self.inherits))),
                ("instantiation"@, opt_str_json(opt_str_view(self.instantiation))),
            ]);
        }
        clone_fields_into(&mut out, &self.extra.0);
        proof {
            lemma_views_of_fields(out@);
        }
        Json::Obj(out)
    }
}

/// The document a process value is written as.
pub open spec fn spec_process_to_json(c: ProcessJsonSchema) -> JsonV {
    JsonV::Obj(
        seq![
            ("name"@, JsonV::Str(c.name@)),
            ("type"@, opt_str_json(opt_str_view(c.preset_type))),
            ("inherits"@, opt_str_json(opt_str_view(c.inherits))),
            ("instantiation"@, opt_str_json(opt_str_view(c.instantiation))),
        ] + c.extra@,
    )
}

impl ProcessJsonSchema {
    /// Writes the process document back as JSON, extra fields unchanged.
    pub fn to_json(&self) -> (r: Json)
        ensures
            r@ == spec_process_to_json(*self),
    {
        let mut out: Vec<(String, Json)> = Vec::new();
        out.push((String::from_str("name"), Json::Str(self.name.clone())));
        out.push((String::from_str("type"), opt_str_to_json(&self.preset_type)));
        out.push((String::from_str("inherits"), opt_str_to_json(&self.inherits)));
        out.push((String::from_str("instantiation"), opt_str_to_json(&self.instantiation)));
        proof {
            assert(views_of_fields(out@) =~= seq![
                ("name"@, JsonV::Str(self.name@)),
                ("type"@, opt_str_json(opt_str_view(self.preset_type))),
                ("inherits"@, opt_str_json(opt_str_view(self.inherits))),
                ("instantiation"@, opt_str_json(opt_str_view(self.instantiation))),
            ]);
        }
        clone_fields_into(&mut out, &self.extra.0);
        proof {
            lemma_views_of_fields(out@);
        }
        Json::Obj(out)
    }
}

/// The document a machine-variant value is written as.
pub open spec fn spec_variant_to_json(c: PrinterVariantJsonSchema) -> JsonV {
    JsonV::Obj(
        seq![
            ("name"@, JsonV::Str(c.name@)),
            ("type"@, opt_str_json(opt_str_view(c.preset_type))),
            ("nozzle_diameter"@, opt_strs_json(opt_strs_view(c.nozzle_diameter))),
            ("inherits"@, opt_str_json(opt_str_view(c.inherits))),
            ("instantiation"@, opt_str_json(opt_str_view(c.instantiation))),
            ("printer_model"@, opt_str_json(opt_str_view(c.printer_model))),
            ("printer_variant"@, opt_str_json(opt_str_view(c.printer_variant))),
        ] + c.extra@,
    )
}

impl PrinterVariantJsonSchema {
    /// Writes the machine-variant document back as JSON, extra fields
    /// unchanged.
    pub fn to_json(&self) -> (r: Json)
        ensures
            r@ == spec_variant_to_json(*self),
    {
        let mut out: Vec<(String, Json)> = Vec::new();
        out.push((String::from_str("name"), Json::Str(self.name.clone())));
        out.push((String::from_str("type"), opt_str_to_json(&self.preset_type)));
        out.push((String::from_str("nozzle_diameter"), opt_strs_to_json(&self.nozzle_diameter)));
        out.push((String::from_str("inherits"), opt_str_to_json(&self.inherits)));
        out.push((String::from_str("instantiation"), opt_str_to_json(&self.instantiation)));
        out.push((String::from_str("printer_model"), opt_str_to_json(&self.printer_model)));
        out.push((String::from_str("printer_variant"), opt_str_to_json(&self.printer_variant)));
        proof {
            assert(views_of_fields(out@) =~= seq![
                ("name"@, JsonV::Str(self.name@)),
                ("type"@, opt_str_json(opt_str_view(self.preset_type))),
                ("nozzle_diameter"@, opt_strs_json(opt_strs_view(self.nozzle_diameter))),
                ("inherits"@, opt_str_json(opt_str_view(self.inherits))),
                ("instantiation"@, opt_str_json(opt_str_view(self.instantiation))),
                ("printer_model"@, opt_str_json(opt_str_view(self.printer_model))),
                ("printer_variant"@, opt_str_json(opt_str_view(self.printer_variant))),
            ]);
        }
        clone_fields_into(&mut out, &self.extra.0);
        proof {
            lemma_views_of_fields(out@);
        }
        Json::Obj(out)
    }
}

/// The document a machine-model value is written as.
pub open spec fn spec_model_to_json(c: PrinterModelJsonSchema) -> JsonV {
    JsonV::Obj(
        seq![
            ("name"@, JsonV::Str(c.name@)),
            ("type"@, JsonV::Str(c.preset_type@)),
            ("nozzle_diameter"@, JsonV::Str(c.nozzle_diameter@)),
            ("family"@, JsonV::Str(c.family@)),
        ] + c.extra@,
    )
}

impl PrinterModelJsonSchema {
    /// Writes the machine-model document back as JSON, extra fields
    /// unchanged.
    pub fn to_json(&self) -> (r: Json)
        ensures
            r@ == spec_model_to_json(*self),
    {
        let mut out: Vec<(String, Json)> = Vec::new();
        out.push((String::from_str("name"), Json::Str(self.name.clone())));
        out.push((String::from_str("type"), Json::Str(self.preset_type.clone())));
        out.push((String::from_str("nozzle_diameter"), Json::Str(self.nozzle_diameter.clone())));
        out.push((String::from_str("family"), Json::Str(self.family.clone())));
        proof {
            assert(views_of_fields(out@) =~= seq![
                ("name"@, JsonV::Str(self.name@)),
                ("type"@, JsonV::Str(self.preset_type@)),
                ("nozzle_diameter"@, JsonV::Str(self.nozzle_diameter@)),
                ("family"@, JsonV::Str(self.family@)),
            ]);
        }
        clone_fields_into(&mut out, &self.extra.0);
        proof {
            lemma_views_of_fields(out@);
        }
        Json::Obj(out)
    }
}

/// The minimal view of a process document.
#[derive(Debug)]
pub struct MinProcessJsonSchema {
    pub name: String,
    pub preset_type: Option<String>,
    pub inherits: Option<String>,
    pub instantiation: Option<String>,
}

/// The minimal view of a machine-model document.
#[derive(Debug)]
pub struct MinPrinterModelJsonSchema {
    pub name: String,
    pub nozzle_diameter: String,
    pub family: String,
}

/// The minimal view of a machine-variant document.
#[derive(Debug)]
pub struct MinPrinterVariantJsonSchema {
    pub name: String,
    pub preset_type: Option<String>,
    pub nozzle_diameter: Option<Vec<String>>,
    pub inherits: Option<String>,
    pub instantiation: Option<String>,
}

/// The minimal view of a filament document.
#[derive(Debug)]
pub struct MinFilamentJsonSchema {
    pub name: String,
    pub preset_type: Option<String>,
    pub inherits: Option<String>,
    pub instantiation: Option<String>,
}

/// A document of no particular kind: its name, inheritance and type.
#[derive(Debug)]
pub struct GenericJsonSchema {
    pub name: String,
    pub inherits: Option<String>,
    pub preset_type: Option<String>,
    pub extra: Extra,
}

/// The fixed schema keys of a generic document.
pub open spec fn generic_known(k: Seq<char>) -> bool {
    ||| k == "name"@
    ||| k == "inherits"@
    ||| k == "type"@
}

/// Collects the fields a generic schema does not know.
#[verifier::loop_isolation(false)]
fn generic_extra(fields: &Vec<(String, Json)>) -> (r: Extra)
    ensures
        r@ == spec_extra_fields(views_of_fields(fields@), |k: Seq<char>| generic_known(k)),
{
    let ghost all = views_of_fields(fields@);
    let ghost known = |k: Seq<char>| generic_known(k);
    let mut out: Vec<(String, Json)> = Vec::new();
    let mut i: usize = 0;
    proof {
        assert(all.subrange(0, all.len() as int) =~= all);
        assert(views_of_fields(out@) =~= Seq::<(Seq<char>, JsonV)>::empty());
    }
    while i < fields.len()
        invariant
            i <= fields@.len(),
            spec_extra_fields(all, known) == views_of_fields(out@) + spec_extra_fields(
                all.subrange(i as int, all.len() as int),
                known,
            ),
        decreases fields@.len() - i,
    {
        proof {
            lemma_extra_fields_suffix(all, known, i as int);
        }
        let key = &fields[i].0;
        let is_known = str_eq(key, "name") || str_eq(key, "inherits") || str_eq(key, "type");
        if !is_known {
            let ghost prev = out@;
            let cloned = clone_json(&fields[i].1);
            out.push((fields[i].0.clone(), cloned));
            proof {
                assert(views_of_fields(out@) =~= views_of_fields(prev) + seq![all[i as int]]);
                assert(views_of_fields(prev) + (seq![all[i as int]] + spec_extra_fields(
                    all.subrange(i + 1, all.len() as int),
                    known,
                )) =~= views_of_fields(out@) + spec_extra_fields(
                    all.subrange(i + 1, all.len() as int),
                    known,
                ));
            }
        }
        i += 1;
    }
    proof {
        assert(all.subrange(all.len() as int, all.len() as int) =~= Seq::<
            (Seq<char>, JsonV),
        >::empty());
        assert(views_of_fields(out@) + Seq::<(Seq<char>, JsonV)>::empty() =~= views_of_fields(
            out@,
        ));
    }
    Extra(out)
}

/// Whether a document has the generic schema's shape.
pub open spec fn spec_generic_ok(v: JsonV) -> bool {
    &&& v is Obj
    &&& spec_req_str(v->Obj_0, "name"@) is Ok
    &&& spec_opt_str(v->Obj_0, "inherits"@) is Ok
    &&& spec_opt_str(v->Obj_0, "type"@) is Ok
}

/// What parsing a generic document yields, given that it has the shape.
pub open spec fn spec_generic_matches(c: GenericJsonSchema, v: JsonV) -> bool {
    let fs = v->Obj_0;
    &&& c.name@ == spec_req_str(fs, "name"@)->Ok_0
    &&& opt_str_view(c.inherits) == spec_opt_str(fs, "inherits"@)->Ok_0
    &&& opt_str_view(c.preset_type) == spec_opt_str(fs, "type"@)->Ok_0
    &&& c.extra@ == spec_extra_fields(fs, |k: Seq<char>| generic_known(k))
}

impl GenericJsonSchema {
    /// Parses a generic document, routing unknown fields into `extra`.
    pub fn from_json(v: &Json) -> (r: Result<GenericJsonSchema, String>)
        ensures
            (r is Ok) == spec_generic_ok(v@),
            r is Ok ==> spec_generic_matches(r->Ok_0, v@),
    {
        match v {
            Json::Obj(fs) => {
                proof {
                    lemma_views_of_fields(fs@);
                }
                let name = match get_req_str(fs, "name") {
                    Result::Ok(s) => s,
                    Result::Err(_) => {
                        return Result::Err(String::from_str(
                            "missing or mistyped field 'name'",
                        ));
                    }
                };
                let inherits = match get_opt_str(fs, "inherits") {
                    Result::Ok(o) => o,
                    Result::Err(_) => {
                        return Result::Err(String::from_str("mistyped field 'inherits'"));
                    }
                };
                let preset_type = match get_opt_str(fs, "type") {
                    Result::Ok(o) => o,
                    Result::Err(_) => {
                        return Result::Err(String::from_str("mistyped field 'type'"));
                    }
                };
                let extra = generic_extra(fs);
                Result::Ok(GenericJsonSchema { name, inherits, preset_type, extra })
            }
            _ => Result::Err(String::from_str("expected a JSON object")),
        }
    }
}

} // verus!
