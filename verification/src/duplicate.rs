//! The duplication engine's pure core: renaming a vendor document and its
//! reference lists under a new root name, and rewriting each child profile
//! document so that every internal cross-reference follows the renaming.
//! The caller performs the file copies and moves that the returned plan
//! describes.

use vstd::prelude::*;
use crate::collision::KeySet;
use crate::json::{fields_get_v, views_of_seq, Json, JsonV};
use crate::profiles::{
    opt_str_view, refs_view, ConfigNameAndPath, Extra, FilamentJsonSchema, PrinterModelJsonSchema,
    PrinterVariantJsonSchema, ProcessJsonSchema, VendorJsonSchema,
};
use crate::rewrite::{replace_name, spec_replace_name};
use crate::strings::{
    charss_view, chars_of, join_chars, join_with_sep, last_index_of, lemma_last_index_of,
    prefix_chars, rfind_char, split_at_sep, split_chars, string_from_chars,
};

verus! {

/// The part of a relative sub-path before its last `/`, empty when it has
/// none.
pub open spec fn spec_sub_path_parent(p: Seq<char>) -> Seq<char> {
    if last_index_of(p, '/') >= 0 {
        p.subrange(0, last_index_of(p, '/'))
    } else {
        Seq::empty()
    }
}

/// The part of `p` before its last `/`.
fn sub_path_parent(p: &str) -> (r: String)
    ensures
        r@ == spec_sub_path_parent(p@),
{
    let cs = chars_of(p);
    proof {
        lemma_last_index_of(cs@, '/');
    }
    match rfind_char(&cs, '/') {
        Option::Some(idx) => {
            let pre = prefix_chars(&cs, idx);
            string_from_chars(&pre)
        }
        Option::None => String::new(),
    }
}

/// How one reference-list entry is renamed: the name goes through the name
/// rewriter, and the sub-path keeps its parent directory but takes the new
/// name with a `.json` extension.
pub open spec fn spec_rewrite_entry(
    e: (Seq<char>, Seq<char>),
    old_root: Seq<char>,
    new_root: Seq<char>,
    exempt: Set<Seq<char>>,
) -> (Seq<char>, Seq<char>) {
    let n = spec_replace_name(e.0, old_root, new_root, exempt);
    (n, spec_sub_path_parent(e.1) + "/"@ + n + ".json"@)
}

/// A whole reference list renamed entry by entry.
pub open spec fn spec_rewrite_refs(
    l: Seq<(Seq<char>, Seq<char>)>,
    old_root: Seq<char>,
    new_root: Seq<char>,
    exempt: Set<Seq<char>>,
) -> Seq<(Seq<char>, Seq<char>)> {
    Seq::new(l.len(), |i: int| spec_rewrite_entry(l[i], old_root, new_root, exempt))
}

/// The file moves a renamed list asks for: each entry's old sub-path next
/// to its new one.
pub open spec fn spec_moves(
    l: Seq<(Seq<char>, Seq<char>)>,
    old_root: Seq<char>,
    new_root: Seq<char>,
    exempt: Set<Seq<char>>,
) -> Seq<(Seq<char>, Seq<char>)> {
    Seq::new(l.len(), |i: int| (l[i].1, spec_rewrite_entry(l[i], old_root, new_root, exempt).1))
}

/// A list of path pairs, seen as character sequences.
pub open spec fn moves_view(m: Seq<(String, String)>) -> Seq<(Seq<char>, Seq<char>)> {
    Seq::new(m.len(), |i: int| (m[i].0@, m[i].1@))
}

/// Renames one reference-list entry in place and returns its old sub-path.
fn rewrite_entry(
    el: &mut ConfigNameAndPath,
    old_dir_name: &str,
    new_dir_name: &str,
    exempt: &KeySet,
) -> (old_sub: String)
    ensures
        old_sub@ == old(el).sub_path@,
        (final(el).name@, final(el).sub_path@) == spec_rewrite_entry(
            (old(el).name@, old(el).sub_path@),
            old_dir_name@,
            new_dir_name@,
            exempt@,
        ),
{
    let old_sub = el.sub_path.clone();
    let parent = sub_path_parent(el.sub_path.as_str());
    let new_name = replace_name(el.name.as_str(), old_dir_name, new_dir_name, exempt);
    let new_sub = parent.concat("/").concat(new_name.as_str()).concat(".json");
    el.name = new_name;
    el.sub_path = new_sub;
    old_sub
}

/// Renames every entry of one optional reference list, returning the file
/// moves the renaming asks for, in entry order.
#[verifier::loop_isolation(false)]
pub fn rewrite_list_entries(
    list: Option<Vec<ConfigNameAndPath>>,
    old_dir_name: &str,
    new_dir_name: &str,
    exempt: &KeySet,
) -> (r: (Option<Vec<ConfigNameAndPath>>, Vec<(String, String)>))
    ensures
        (r.0 is Some) == (list is Some),
        list is None ==> r.1@.len() == 0,
        list is Some ==> {
            &&& refs_view(r.0->0@) == spec_rewrite_refs(
                refs_view(list->0@),
                old_dir_name@,
                new_dir_name@,
                exempt@,
            )
            &&& moves_view(r.1@) == spec_moves(
                refs_view(list->0@),
                old_dir_name@,
                new_dir_name@,
                exempt@,
            )
        },
{
    match list {
        Option::None => (Option::None, Vec::new()),
        Option::Some(mut entries) => {
            let ghost orig = refs_view(entries@);
            let mut moves: Vec<(String, String)> = Vec::new();
            let mut i: usize = 0;
            while i < entries.len()
                invariant
                    i <= entries@.len(),
                    entries@.len() == orig.len(),
                    moves@.len() == i,
                    forall|j: int|
                        i <= j < orig.len() ==> ((#[trigger] entries@[j]).name@,
                        entries@[j].sub_path@) == orig[j],
                    forall|j: int|
                        0 <= j < i ==> ((#[trigger] entries@[j]).name@, entries@[j].sub_path@)
                            == spec_rewrite_entry(orig[j], old_dir_name@, new_dir_name@, exempt@),
                    forall|j: int|
                        0 <= j < i ==> ((#[trigger] moves@[j]).0@, moves@[j].1@) == (
                        orig[j].1,
                        spec_rewrite_entry(orig[j], old_dir_name@, new_dir_name@, exempt@).1,
                        ),
                decreases entries@.len() - i,
            {
                let old_sub = rewrite_entry(&mut entries[i], old_dir_name, new_dir_name, exempt);
                let new_sub = entries[i].sub_path.clone();
                moves.push((old_sub, new_sub));
                i += 1;
            }
            proof {
                assert(refs_view(entries@) =~= spec_rewrite_refs(
                    orig,
                    old_dir_name@,
                    new_dir_name@,
                    exempt@,
                ));
                assert(moves_view(moves@) =~= spec_moves(
                    orig,
                    old_dir_name@,
                    new_dir_name@,
                    exempt@,
                ));
            }
            (Option::Some(entries), moves)
        }
    }
}

/// An optional name sent through the rewriter.
pub open spec fn spec_rewrite_opt_name(
    o: Option<Seq<char>>,
    old_root: Seq<char>,
    new_root: Seq<char>,
    exempt: Set<Seq<char>>,
) -> Option<Seq<char>> {
    match o {
        Option::Some(s) => Option::Some(spec_replace_name(s, old_root, new_root, exempt)),
        Option::None => Option::None,
    }
}

/// Rewrites an optional name field through the name rewriter.
fn rewrite_opt_name(
    o: &Option<String>,
    old_dir_name: &str,
    new_dir_name: &str,
    exempt: &KeySet,
) -> (r: Option<String>)
    ensures
        opt_str_view(r) == spec_rewrite_opt_name(
            opt_str_view(*o),
            old_dir_name@,
            new_dir_name@,
            exempt@,
        ),
{
    match o {
        Option::Some(s) => Option::Some(
            replace_name(s.as_str(), old_dir_name, new_dir_name, exempt),
        ),
        Option::None => Option::None,
    }
}

/// The field list with the first value under `k` replaced by `v`;
/// unchanged when `k` is absent.
pub open spec fn spec_set_field(
    fields: Seq<(Seq<char>, JsonV)>,
    k: Seq<char>,
    v: JsonV,
) -> Seq<(Seq<char>, JsonV)>
    decreases fields,
{
    if fields.len() == 0 {
        fields
    } else if fields[0].0 == k {
        seq![(fields[0].0, v)] + fields.drop_first()
    } else {
        seq![fields[0]] + spec_set_field(fields.drop_first(), k, v)
    }
}

/// Replacing one key's value touches nothing else: the extra map keeps its
/// length and its key order, and every field under another key survives a
/// rewrite unchanged.
pub proof fn lemma_set_field_preserves_others(
    fields: Seq<(Seq<char>, JsonV)>,
    k: Seq<char>,
    v: JsonV,
)
    ensures
        spec_set_field(fields, k, v).len() == fields.len(),
        forall|i: int|
            0 <= i < fields.len() ==> (#[trigger] spec_set_field(fields, k, v)[i]).0
                == fields[i].0,
        forall|i: int|
            0 <= i < fields.len() && (#[trigger] fields[i]).0 != k ==> spec_set_field(
                fields,
                k,
                v,
            )[i] == fields[i],
    decreases fields,
{
    if fields.len() > 0 && fields[0].0 != k {
        lemma_set_field_preserves_others(fields.drop_first(), k, v);
        let r = spec_set_field(fields, k, v);
        let sub = spec_set_field(fields.drop_first(), k, v);
        assert(forall|i: int| 0 <= i < sub.len() ==> r[i + 1] == sub[i]);
        assert(forall|i: int|
            1 <= i < fields.len() ==> (#[trigger] fields[i]) == fields.drop_first()[i - 1]);
    }
}

proof fn lemma_set_field_at(fields: Seq<(Seq<char>, JsonV)>, k: Seq<char>, v: JsonV, i: int)
    requires
        0 <= i < fields.len(),
        fields[i].0 == k,
        forall|j: int| 0 <= j < i ==> (#[trigger] fields[j]).0 != k,
    ensures
        spec_set_field(fields, k, v) == fields.update(i, (fields[i].0, v)),
    decreases i,
{
    if i == 0 {
        assert(spec_set_field(fields, k, v) =~= fields.update(0, (fields[0].0, v)));
    } else {
        lemma_set_field_at(fields.drop_first(), k, v, i - 1);
        assert(spec_set_field(fields, k, v) =~= fields.update(i, (fields[i].0, v)));
    }
}

/// Finds the first entry holding `key` among a document's extra fields.
#[verifier::loop_isolation(false)]
fn find_extra_key(extra: &Extra, key: &str) -> (r: Option<usize>)
    ensures
        match r {
            Option::Some(i) => {
                &&& i < extra.0@.len()
                &&& extra@[i as int].0 == key@
                &&& forall|j: int| 0 <= j < i ==> (#[trigger] extra@[j]).0 != key@
                &&& fields_get_v(extra@, key@) == Option::Some(extra@[i as int].1)
            },
            Option::None => fields_get_v(extra@, key@) is None,
        },
{
    let owned = key.to_owned();
    let mut i: usize = 0;
    while i < extra.0.len()
        invariant
            i <= extra.0@.len(),
            owned@ == key@,
            forall|j: int| 0 <= j < i ==> (#[trigger] extra@[j]).0 != key@,
        decreases extra.0@.len() - i,
    {
        if extra.0[i].0 == owned {
            proof {
                crate::json::lemma_fields_get_at(extra@, key@, i as int);
            }
            return Option::Some(i);
        }
        i += 1;
    }
    proof {
        crate::json::lemma_fields_get_none(extra@, key@);
    }
    Option::None
}

/// Replaces the value at a found key index.
fn set_extra_field(extra: &mut Extra, idx: usize, value: Json)
    requires
        idx < old(extra).0@.len(),
    ensures
        final(extra)@ == old(extra)@.update(idx as int, (old(extra)@[idx as int].0, value@)),
{
    extra.0[idx].1 = value;
    proof {
        assert(final(extra)@ =~= old(extra)@.update(
            idx as int,
            (old(extra)@[idx as int].0, value@),
        ));
    }
}

/// The extra map with a string-valued key sent through the rewriter;
/// unchanged when the key is absent or not a string.
pub open spec fn spec_rewrite_extra_str(
    fields: Seq<(Seq<char>, JsonV)>,
    k: Seq<char>,
    old_root: Seq<char>,
    new_root: Seq<char>,
    exempt: Set<Seq<char>>,
) -> Seq<(Seq<char>, JsonV)> {
    match fields_get_v(fields, k) {
        Option::Some(v) => if v is Str {
            spec_set_field(
                fields,
                k,
                JsonV::Str(spec_replace_name(v->Str_0, old_root, new_root, exempt)),
            )
        } else {
            fields
        },
        Option::None => fields,
    }
}

/// Rewrites a string-valued extra key through the name rewriter.
fn rewrite_extra_str_key(
    extra: &mut Extra,
    key: &str,
    old_dir_name: &str,
    new_dir_name: &str,
    exempt: &KeySet,
)
    ensures
        final(extra)@ == spec_rewrite_extra_str(
            old(extra)@,
            key@,
            old_dir_name@,
            new_dir_name@,
            exempt@,
        ),
{
    match find_extra_key(extra, key) {
        Option::Some(i) => {
            let replacement = match &extra.0[i].1 {
                Json::Str(s) => Option::Some(
                    Json::Str(replace_name(s.as_str(), old_dir_name, new_dir_name, exempt)),
                ),
                _ => Option::None,
            };
            match replacement {
                Option::Some(v) => {
                    proof {
                        lemma_set_field_at(extra@, key@, v@, i as int);
                    }
                    set_extra_field(extra, i, v);
                }
                Option::None => {}
            }
        }
        Option::None => {}
    }
}

/// A document's view is a string exactly when the document is.
proof fn lemma_json_view_is_str(v: Json)
    ensures
        (crate::json::json_view(v) is Str) <==> (v is Str),
{
    match v {
        Json::Null => {}
        Json::Bool(_) => {}
        Json::Num(_) => {}
        Json::Str(_) => {}
        Json::Arr(_) => {}
        Json::Obj(_) => {}
    }
}

/// Every item of an array is a string.
pub open spec fn all_str_items(items: Seq<JsonV>) -> bool {
    forall|i: int| 0 <= i < items.len() ==> (#[trigger] items[i]) is Str
}

/// An array of names, each sent through the rewriter.
pub open spec fn spec_rewrite_str_items(
    items: Seq<JsonV>,
    old_root: Seq<char>,
    new_root: Seq<char>,
    exempt: Set<Seq<char>>,
) -> Seq<JsonV> {
    Seq::new(
        items.len(),
        |i: int| JsonV::Str(spec_replace_name(items[i]->Str_0, old_root, new_root, exempt)),
    )
}

/// The extra map with an array-of-strings key sent through the rewriter
/// item by item; unchanged when the key is absent, not an array, or an
/// array holding a non-string.
pub open spec fn spec_rewrite_extra_arr(
    fields: Seq<(Seq<char>, JsonV)>,
    k: Seq<char>,
    old_root: Seq<char>,
    new_root: Seq<char>,
    exempt: Set<Seq<char>>,
) -> Seq<(Seq<char>, JsonV)> {
    match fields_get_v(fields, k) {
        Option::Some(v) => if v is Arr && all_str_items(v->Arr_0) {
            spec_set_field(
                fields,
                k,
                JsonV::Arr(spec_rewrite_str_items(v->Arr_0, old_root, new_root, exempt)),
            )
        } else {
            fields
        },
        Option::None => fields,
    }
}

/// Rewrites an array-of-strings extra key through the name rewriter.
#[verifier::loop_isolation(false)]
fn rewrite_extra_arr_key(
    extra: &mut Extra,
    key: &str,
    old_dir_name: &str,
    new_dir_name: &str,
    exempt: &KeySet,
)
    ensures
        final(extra)@ == spec_rewrite_extra_arr(
            old(extra)@,
            key@,
            old_dir_name@,
            new_dir_name@,
            exempt@,
        ),
{
    match find_extra_key(extra, key) {
        Option::Some(i) => {
            let replacement = match &extra.0[i].1 {
                Json::Arr(items) => {
                    let ghost item_views = views_of_seq(items@);
                    proof {
                        crate::json::lemma_views_of_seq(items@);
                    }
                    let mut all_str = true;
                    let mut j: usize = 0;
                    while j < items.len()
                        invariant
                            j <= items@.len(),
                            item_views == views_of_seq(items@),
                            all_str == (forall|k2: int|
                                0 <= k2 < j ==> (#[trigger] item_views[k2]) is Str),
                        decreases items@.len() - j,
                    {
                        let is_s = match &items[j] {
                            Json::Str(_) => true,
                            _ => false,
                        };
                        proof {
                            lemma_json_view_is_str(items@[j as int]);
                            assert(item_views[j as int] == crate::json::json_view(
                                items@[j as int],
                            ));
                            assert((item_views[j as int] is Str) == is_s);
                        }
                        if !is_s {
                            all_str = false;
                        }
                        j += 1;
                    }
                    if all_str {
                        let mut new_items: Vec<Json> = Vec::new();
                        let mut k2: usize = 0;
                        while k2 < items.len()
                            invariant
                                k2 <= items@.len(),
                                item_views == views_of_seq(items@),
                                all_str_items(item_views),
                                views_of_seq(new_items@) == spec_rewrite_str_items(
                                    item_views,
                                    old_dir_name@,
                                    new_dir_name@,
                                    exempt@,
                                ).subrange(0, k2 as int),
                            decreases items@.len() - k2,
                        {
                            match &items[k2] {
                                Json::Str(s) => {
                                    new_items.push(
                                        Json::Str(
                                            replace_name(
                                                s.as_str(),
                                                old_dir_name,
                                                new_dir_name,
                                                exempt,
                                            ),
                                        ),
                                    );
                                    proof {
                                        assert(views_of_seq(new_items@) =~= spec_rewrite_str_items(
                                            item_views,
                                            old_dir_name@,
                                            new_dir_name@,
                                            exempt@,
                                        ).subrange(0, k2 + 1));
                                    }
                                }
                                _ => {
                                    proof {
                                        lemma_json_view_is_str(items@[k2 as int]);
                                        assert(item_views[k2 as int] == crate::json::json_view(
                                            items@[k2 as int],
                                        ));
                                        assert(item_views[k2 as int] is Str);
                                        assert(false);
                                    }
                                }
                            }
                            k2 += 1;
                        }
                        proof {
                            assert(spec_rewrite_str_items(
                                item_views,
                                old_dir_name@,
                                new_dir_name@,
                                exempt@,
                            ).subrange(
                                0,
                                item_views.len() as int,
                            ) =~= spec_rewrite_str_items(
                                item_views,
                                old_dir_name@,
                                new_dir_name@,
                                exempt@,
                            ));
                            crate::json::lemma_views_of_seq(new_items@);
                        }
                        Option::Some(Json::Arr(new_items))
                    } else {
                        Option::None
                    }
                }
                _ => Option::None,
            };
            match replacement {
                Option::Some(v) => {
                    proof {
                        lemma_set_field_at(extra@, key@, v@, i as int);
                    }
                    set_extra_field(extra, i, v);
                }
                Option::None => {}
            }
        }
        Option::None => {}
    }
}

/// A `;`-separated list of names, each part sent through the rewriter.
pub open spec fn spec_rewrite_materials_value(
    s: Seq<char>,
    old_root: Seq<char>,
    new_root: Seq<char>,
    exempt: Set<Seq<char>>,
) -> Seq<char> {
    let parts = split_at_sep(s, ';');
    join_with_sep(
        Seq::new(parts.len(), |i: int| spec_replace_name(parts[i], old_root, new_root, exempt)),
        ';',
    )
}

/// The extra map with a `;`-separated string key rewritten part by part;
/// unchanged when the key is absent or not a string.
pub open spec fn spec_rewrite_extra_materials(
    fields: Seq<(Seq<char>, JsonV)>,
    k: Seq<char>,
    old_root: Seq<char>,
    new_root: Seq<char>,
    exempt: Set<Seq<char>>,
) -> Seq<(Seq<char>, JsonV)> {
    match fields_get_v(fields, k) {
        Option::Some(v) => if v is Str {
            spec_set_field(
                fields,
                k,
                JsonV::Str(spec_rewrite_materials_value(v->Str_0, old_root, new_root, exempt)),
            )
        } else {
            fields
        },
        Option::None => fields,
    }
}

/// Rewrites a `;`-separated extra key through the name rewriter.
#[verifier::loop_isolation(false)]
fn rewrite_extra_materials_key(
    extra: &mut Extra,
    key: &str,
    old_dir_name: &str,
    new_dir_name: &str,
    exempt: &KeySet,
)
    ensures
        final(extra)@ == spec_rewrite_extra_materials(
            old(extra)@,
            key@,
            old_dir_name@,
            new_dir_name@,
            exempt@,
        ),
{
    match find_extra_key(extra, key) {
        Option::Some(i) => {
            let replacement = match &extra.0[i].1 {
                Json::Str(s) => {
                    let cs = chars_of(s.as_str());
                    let parts = split_chars(&cs, ';');
                    let ghost part_views = charss_view(parts@);
                    let ghost rewritten = Seq::new(
                        part_views.len(),
                        |j: int|
                            spec_replace_name(
                                part_views[j],
                                old_dir_name@,
                                new_dir_name@,
                                exempt@,
                            ),
                    );
                    let mut new_parts: Vec<Vec<char>> = Vec::new();
                    let mut j: usize = 0;
                    while j < parts.len()
                        invariant
                            j <= parts@.len(),
                            part_views == charss_view(parts@),
                            rewritten == Seq::new(
                                part_views.len(),
                                |j2: int|
                                    spec_replace_name(
                                        part_views[j2],
                                        old_dir_name@,
                                        new_dir_name@,
                                        exempt@,
                                    ),
                            ),
                            charss_view(new_parts@) == rewritten.subrange(0, j as int),
                        decreases parts@.len() - j,
                    {
                        let part_str = string_from_chars(&parts[j]);
                        let renamed = replace_name(
                            part_str.as_str(),
                            old_dir_name,
                            new_dir_name,
                            exempt,
                        );
                        new_parts.push(chars_of(renamed.as_str()));
                        proof {
                            assert(charss_view(new_parts@) =~= rewritten.subrange(0, j + 1));
                        }
                        j += 1;
                    }
                    proof {
                        assert(rewritten.subrange(0, rewritten.len() as int) =~= rewritten);
                    }
                    let joined = join_chars(&new_parts, ';');
                    Option::Some(Json::Str(string_from_chars(&joined)))
                }
                _ => Option::None,
            };
            match replacement {
                Option::Some(v) => {
                    proof {
                        lemma_set_field_at(extra@, key@, v@, i as int);
                    }
                    set_extra_field(extra, i, v);
                }
                Option::None => {}
            }
        }
        Option::None => {}
    }
}

/// Rewrites a machine-variant document for its entry in the renamed
/// vendor list: it takes the entry's name, and its `inherits` and
/// `printer_model` references and the `default_print_profile` and
/// `default_filament_profile` extra keys follow the renaming.
pub fn rewrite_printer_variant(
    parsed_config: &mut PrinterVariantJsonSchema,
    entry: &ConfigNameAndPath,
    old_dir_name: &str,
    new_dir_name: &str,
    exempt: &KeySet,
)
    ensures
        final(parsed_config).name@ == entry.name@,
        final(parsed_config).preset_type == old(parsed_config).preset_type,
        final(parsed_config).nozzle_diameter == old(parsed_config).nozzle_diameter,
        final(parsed_config).instantiation == old(parsed_config).instantiation,
        final(parsed_config).printer_variant == old(parsed_config).printer_variant,
        opt_str_view(final(parsed_config).inherits) == spec_rewrite_opt_name(
            opt_str_view(old(parsed_config).inherits),
            old_dir_name@,
            new_dir_name@,
            exempt@,
        ),
        opt_str_view(final(parsed_config).printer_model) == spec_rewrite_opt_name(
            opt_str_view(old(parsed_config).printer_model),
            old_dir_name@,
            new_dir_name@,
            exempt@,
        ),
        final(parsed_config).extra@ == spec_rewrite_extra_arr(
            spec_rewrite_extra_str(
                old(parsed_config).extra@,
                "default_print_profile"@,
                old_dir_name@,
                new_dir_name@,
                exempt@,
            ),
            "default_filament_profile"@,
            old_dir_name@,
            new_dir_name@,
            exempt@,
        ),
{
    parsed_config.name = entry.name.clone();
    let inherits = rewrite_opt_name(&parsed_config.inherits, old_dir_name, new_dir_name, exempt);
    parsed_config.inherits = inherits;
    let printer_model = rewrite_opt_name(
        &parsed_config.printer_model,
        old_dir_name,
        new_dir_name,
        exempt,
    );
    parsed_config.printer_model = printer_model;
    rewrite_extra_str_key(
        &mut parsed_config.extra,
        "default_print_profile",
        old_dir_name,
        new_dir_name,
        exempt,
    );
    rewrite_extra_arr_key(
        &mut parsed_config.extra,
        "default_filament_profile",
        old_dir_name,
        new_dir_name,
        exempt,
    );
}

/// Rewrites a machine-model document for its entry in the renamed vendor
/// list: it takes the entry's name, the family becomes the new root, and
/// the `default_materials` extra key is rewritten part by part.
pub fn rewrite_printer_model(
    parsed_config: &mut PrinterModelJsonSchema,
    entry: &ConfigNameAndPath,
    old_dir_name: &str,
    new_dir_name: &str,
    exempt: &KeySet,
)
    ensures
        final(parsed_config).name@ == entry.name@,
        final(parsed_config).family@ == new_dir_name@,
        final(parsed_config).preset_type == old(parsed_config).preset_type,
        final(parsed_config).nozzle_diameter == old(parsed_config).nozzle_diameter,
        final(parsed_config).extra@ == spec_rewrite_extra_materials(
            old(parsed_config).extra@,
            "default_materials"@,
            old_dir_name@,
            new_dir_name@,
            exempt@,
        ),
{
    parsed_config.name = entry.name.clone();
    parsed_config.family = new_dir_name.to_owned();
    rewrite_extra_materials_key(
        &mut parsed_config.extra,
        "default_materials",
        old_dir_name,
        new_dir_name,
        exempt,
    );
}

/// Rewrites a filament document for its entry in the renamed vendor list:
/// it takes the entry's name, and its `inherits` reference and
/// `compatible_printers` extra key follow the renaming.
pub fn rewrite_filament(
    parsed_config: &mut FilamentJsonSchema,
    entry: &ConfigNameAndPath,
    old_dir_name: &str,
    new_dir_name: &str,
    exempt: &KeySet,
)
    ensures
        final(parsed_config).name@ == entry.name@,
        final(parsed_config).preset_type == old(parsed_config).preset_type,
        final(parsed_config).instantiation == old(parsed_config).instantiation,
        opt_str_view(final(parsed_config).inherits) == spec_rewrite_opt_name(
            opt_str_view(old(parsed_config).inherits),
            old_dir_name@,
            new_dir_name@,
            exempt@,
        ),
        final(parsed_config).extra@ == spec_rewrite_extra_arr(
            old(parsed_config).extra@,
            "compatible_printers"@,
            old_dir_name@,
            new_dir_name@,
            exempt@,
        ),
{
    parsed_config.name = entry.name.clone();
    let inherits = rewrite_opt_name(&parsed_config.inherits, old_dir_name, new_dir_name, exempt);
    parsed_config.inherits = inherits;
    rewrite_extra_arr_key(
        &mut parsed_config.extra,
        "compatible_printers",
        old_dir_name,
        new_dir_name,
        exempt,
    );
}

/// Rewrites a process document for its entry in the renamed vendor list:
/// it takes the entry's name, and its `inherits` reference and
/// `compatible_printers` extra key follow the renaming.
pub fn rewrite_process(
    parsed_config: &mut ProcessJsonSchema,
    entry: &ConfigNameAndPath,
    old_dir_name: &str,
    new_dir_name: &str,
    exempt: &KeySet,
)
    ensures
        final(parsed_config).name@ == entry.name@,
        final(parsed_config).preset_type == old(parsed_config).preset_type,
        final(parsed_config).instantiation == old(parsed_config).instantiation,
        opt_str_view(final(parsed_config).inherits) == spec_rewrite_opt_name(
            opt_str_view(old(parsed_config).inherits),
            old_dir_name@,
            new_dir_name@,
            exempt@,
        ),
        final(parsed_config).extra@ == spec_rewrite_extra_arr(
            old(parsed_config).extra@,
            "compatible_printers"@,
            old_dir_name@,
            new_dir_name@,
            exempt@,
        ),
{
    parsed_config.name = entry.name.clone();
    let inherits = rewrite_opt_name(&parsed_config.inherits, old_dir_name, new_dir_name, exempt);
    parsed_config.inherits = inherits;
    rewrite_extra_arr_key(
        &mut parsed_config.extra,
        "compatible_printers",
        old_dir_name,
        new_dir_name,
        exempt,
    );
}

/// Renames a vendor document for duplication: its own name becomes the new
/// root, and every entry of its four reference lists is renamed. The
/// returned move lists give, for the machine, model, filament and process
/// lists in turn, each entry's old and new sub-path; the caller moves the
/// files and rewrites each child document.
pub fn duplicate_vendor(
    parsed_vendor_config: VendorJsonSchema,
    old_dir_name: &str,
    new_dir_name: &str,
    orca_filament_library_filaments: &KeySet,
) -> (r: (
    VendorJsonSchema,
    Vec<(String, String)>,
    Vec<(String, String)>,
    Vec<(String, String)>,
    Vec<(String, String)>,
))
    ensures
        r.0.name@ == new_dir_name@,
        r.0.version == parsed_vendor_config.version,
        r.0.extra == parsed_vendor_config.extra,
        (r.0.machine_list is Some) == (parsed_vendor_config.machine_list is Some),
        (r.0.machine_model_list is Some) == (parsed_vendor_config.machine_model_list is Some),
        (r.0.filament_list is Some) == (parsed_vendor_config.filament_list is Some),
        (r.0.process_list is Some) == (parsed_vendor_config.process_list is Some),
        parsed_vendor_config.machine_list is Some ==> {
            &&& refs_view(r.0.machine_list->0@) == spec_rewrite_refs(
                refs_view(parsed_vendor_config.machine_list->0@),
                old_dir_name@,
                new_dir_name@,
                orca_filament_library_filaments@,
            )
            &&& moves_view(r.1@) == spec_moves(
                refs_view(parsed_vendor_config.machine_list->0@),
                old_dir_name@,
                new_dir_name@,
                orca_filament_library_filaments@,
            )
        },
        parsed_vendor_config.machine_model_list is Some ==> {
            &&& refs_view(r.0.machine_model_list->0@) == spec_rewrite_refs(
                refs_view(parsed_vendor_config.machine_model_list->0@),
                old_dir_name@,
                new_dir_name@,
                orca_filament_library_filaments@,
            )
            &&& moves_view(r.2@) == spec_moves(
                refs_view(parsed_vendor_config.machine_model_list->0@),
                old_dir_name@,
                new_dir_name@,
                orca_filament_library_filaments@,
            )
        },
        parsed_vendor_config.filament_list is Some ==> {
            &&& refs_view(r.0.filament_list->0@) == spec_rewrite_refs(
                refs_view(parsed_vendor_config.filament_list->0@),
                old_dir_name@,
                new_dir_name@,
                orca_filament_library_filaments@,
            )
            &&& moves_view(r.3@) == spec_moves(
                refs_view(parsed_vendor_config.filament_list->0@),
                old_dir_name@,
                new_dir_name@,
                orca_filament_library_filaments@,
            )
        },
        parsed_vendor_config.process_list is Some ==> {
            &&& refs_view(r.0.process_list->0@) == spec_rewrite_refs(
                refs_view(parsed_vendor_config.process_list->0@),
                old_dir_name@,
                new_dir_name@,
                orca_filament_library_filaments@,
            )
            &&& moves_view(r.4@) == spec_moves(
                refs_view(parsed_vendor_config.process_list->0@),
                old_dir_name@,
                new_dir_name@,
                orca_filament_library_filaments@,
            )
        },
{
    let VendorJsonSchema {
        name: _,
        version,
        machine_model_list,
        process_list,
        filament_list,
        machine_list,
        extra,
    } = parsed_vendor_config;
    let (machine_list, machine_moves) = rewrite_list_entries(
        machine_list,
        old_dir_name,
        new_dir_name,
        orca_filament_library_filaments,
    );
    let (machine_model_list, model_moves) = rewrite_list_entries(
        machine_model_list,
        old_dir_name,
        new_dir_name,
        orca_filament_library_filaments,
    );
    let (filament_list, filament_moves) = rewrite_list_entries(
        filament_list,
        old_dir_name,
        new_dir_name,
        orca_filament_library_filaments,
    );
    let (process_list, process_moves) = rewrite_list_entries(
        process_list,
        old_dir_name,
        new_dir_name,
        orca_filament_library_filaments,
    );
    let renamed = VendorJsonSchema {
        name: new_dir_name.to_owned(),
        version,
        machine_model_list,
        process_list,
        filament_list,
        machine_list,
        extra,
    };
    (renamed, machine_moves, model_moves, filament_moves, process_moves)
}

/// The part of `p` after its last `/`, the whole of `p` when it has none.
pub open spec fn basename_of(p: Seq<char>) -> Seq<char> {
    p.subrange(last_index_of(p, '/') + 1, p.len() as int)
}

/// `p` with a trailing `.json` extension removed.
pub open spec fn strip_json_ext(p: Seq<char>) -> Seq<char> {
    if p.len() >= 5 && p.subrange(p.len() - 5, p.len() as int) == ".json"@ {
        p.subrange(0, p.len() - 5)
    } else {
        p
    }
}

/// After renaming, a reference-list entry's sub-path agrees with its name:
/// the sub-path's base name, less its `.json` extension, is exactly the
/// entry's new name.
pub proof fn lemma_rewrite_entry_aligned(
    e: (Seq<char>, Seq<char>),
    old_root: Seq<char>,
    new_root: Seq<char>,
    exempt: Set<Seq<char>>,
)
    ensures
        strip_json_ext(basename_of(spec_rewrite_entry(e, old_root, new_root, exempt).1))
            == spec_rewrite_entry(e, old_root, new_root, exempt).0,
{
    reveal_strlit("/");
    reveal_strlit(".json");
    let n = spec_replace_name(e.0, old_root, new_root, exempt);
    crate::rewrite::lemma_replace_name_no_slash(e.0, old_root, new_root, exempt);
    let parent = spec_sub_path_parent(e.1);
    let sp = parent + "/"@ + n + ".json"@;
    assert(sp[parent.len() as int] == '/');
    assert forall|j: int| parent.len() < j < sp.len() implies sp[j] != '/' by {
        if j < parent.len() + 1 + n.len() {
            assert(sp[j] == n[j - parent.len() - 1]);
            if n[j - parent.len() - 1] == '/' {
                assert(n.contains('/'));
            }
        } else {
            assert(sp[j] == ".json"@[j - parent.len() - 1 - n.len()]);
        }
    }
    lemma_last_index_of(sp, '/');
    let li = last_index_of(sp, '/');
    if li < 0 {
        assert(sp[parent.len() as int] != '/');
        assert(false);
    }
    if li < parent.len() {
        assert(sp[parent.len() as int] != '/');
        assert(false);
    }
    if li > parent.len() {
        assert(sp[li] != '/');
        assert(false);
    }
    assert(basename_of(sp) =~= n + ".json"@);
    let b = n + ".json"@;
    assert(b.subrange(b.len() - 5, b.len() as int) =~= ".json"@);
    assert(strip_json_ext(b) =~= n);
}

/// Every entry of a renamed reference list has its sub-path aligned with
/// its name.
pub proof fn lemma_rewrite_refs_aligned(
    l: Seq<(Seq<char>, Seq<char>)>,
    old_root: Seq<char>,
    new_root: Seq<char>,
    exempt: Set<Seq<char>>,
)
    ensures
        forall|i: int|
            0 <= i < l.len() ==> strip_json_ext(
                basename_of((#[trigger] spec_rewrite_refs(l, old_root, new_root, exempt)[i]).1),
            ) == spec_rewrite_refs(l, old_root, new_root, exempt)[i].0,
{
    assert forall|i: int| 0 <= i < l.len() implies strip_json_ext(
        basename_of((#[trigger] spec_rewrite_refs(l, old_root, new_root, exempt)[i]).1),
    ) == spec_rewrite_refs(l, old_root, new_root, exempt)[i].0 by {
        lemma_rewrite_entry_aligned(l[i], old_root, new_root, exempt);
    }
}

} // verus!
