//! The name rewriter: maps an old profile name to a new one under a
//! root-name substitution, given an exemption set. This is the single source
//! of truth for every renaming performed during duplication.

use vstd::prelude::*;
use crate::collision::KeySet;
use crate::strings::{
    chars_of, contains_chars, contains_seq, lower_of, lowercase, replace_all, replace_chars,
    string_from_chars,
};

verus! {

/// Every `/` replaced by a space, so a name can never become a path fragment.
pub open spec fn slashes_to_spaces(s: Seq<char>) -> Seq<char> {
    s.map_values(|c: char| if c == '/' { ' ' } else { c })
}

/// What `replace_name` returns, before the final slash normalisation:
/// an exempt name is kept; else the old root is substituted literally if it
/// occurs, else in lower case if that occurs, else the new root is prefixed.
pub open spec fn spec_replace_name_base(
    name: Seq<char>,
    old_root: Seq<char>,
    new_root: Seq<char>,
    exempt: Set<Seq<char>>,
) -> Seq<char> {
    if exempt.contains(name) {
        name
    } else if contains_seq(name, old_root) {
        replace_all(name, old_root, new_root)
    } else if contains_seq(name, lower_of(old_root)) {
        replace_all(name, lower_of(old_root), lower_of(new_root))
    } else {
        new_root + seq![' '] + name
    }
}

/// What `replace_name` returns.
pub open spec fn spec_replace_name(
    name: Seq<char>,
    old_root: Seq<char>,
    new_root: Seq<char>,
    exempt: Set<Seq<char>>,
) -> Seq<char> {
    slashes_to_spaces(spec_replace_name_base(name, old_root, new_root, exempt))
}

/// Replaces every `/` by a space.
fn strip_slashes(v: &Vec<char>) -> (out: Vec<char>)
    ensures
        out@ == slashes_to_spaces(v@),
{
    let mut out: Vec<char> = Vec::new();
    let mut i: usize = 0;
    while i < v.len()
        invariant
            i <= v@.len(),
            out@ == slashes_to_spaces(v@.subrange(0, i as int)),
        decreases v@.len() - i,
    {
        let c = v[i];
        if c == '/' {
            out.push(' ');
        } else {
            out.push(c);
        }
        i += 1;
        proof {
            assert(out@ =~= slashes_to_spaces(v@.subrange(0, i as int)));
        }
    }
    proof {
        assert(v@.subrange(0, v@.len() as int) =~= v@);
    }
    out
}

/// Computes the renamed form of `name` when the vendor root `old_dir_name`
/// becomes `new_dir_name`, leaving members of the exemption set untouched
/// apart from the final slash normalisation.
pub fn replace_name(
    name: &str,
    old_dir_name: &str,
    new_dir_name: &str,
    orca_filament_library_filaments: &KeySet,
) -> (r: String)
    ensures
        r@ == spec_replace_name(
            name@,
            old_dir_name@,
            new_dir_name@,
            orca_filament_library_filaments@,
        ),
        !r@.contains('/'),
{
    let name_cs = chars_of(name);
    let base: Vec<char>;
    if orca_filament_library_filaments.contains(name) {
        base = name_cs;
    } else {
        let old_cs = chars_of(old_dir_name);
        if contains_chars(&name_cs, &old_cs) {
            let new_cs = chars_of(new_dir_name);
            base = replace_chars(&name_cs, &old_cs, &new_cs);
        } else {
            let old_low_s = lowercase(old_dir_name);
            let old_low = chars_of(old_low_s.as_str());
            if contains_chars(&name_cs, &old_low) {
                let new_low_s = lowercase(new_dir_name);
                let new_low = chars_of(new_low_s.as_str());
                base = replace_chars(&name_cs, &old_low, &new_low);
            } else {
                let mut joined = chars_of(new_dir_name);
                joined.push(' ');
                crate::strings::append_chars(&mut joined, &name_cs);
                proof {
                    assert(joined@ =~= new_dir_name@ + seq![' '] + name@);
                }
                base = joined;
            }
        }
    }
    let stripped = strip_slashes(&base);
    proof {
        lemma_slashes_to_spaces_no_slash(base@);
    }
    string_from_chars(&stripped)
}

/// Slash normalisation leaves no `/` behind.
proof fn lemma_slashes_to_spaces_no_slash(s: Seq<char>)
    ensures
        !slashes_to_spaces(s).contains('/'),
{
    let out = slashes_to_spaces(s);
    assert forall|i: int| 0 <= i < out.len() implies out[i] != '/' by {
        assert(out[i] == if s[i] == '/' { ' ' } else { s[i] });
    }
    if out.contains('/') {
        let i = choose|i: int| 0 <= i < out.len() && out[i] == '/';
    }
}

/// A name in the exemption set is returned unchanged, provided it contains
/// no `/` (a slash would still be normalised to a space).
pub proof fn lemma_replace_name_exempt(
    name: Seq<char>,
    old_root: Seq<char>,
    new_root: Seq<char>,
    exempt: Set<Seq<char>>,
)
    requires
        exempt.contains(name),
        !name.contains('/'),
    ensures
        spec_replace_name(name, old_root, new_root, exempt) == name,
{
    assert forall|i: int| 0 <= i < name.len() implies name[i] != '/' by {
        if name[i] == '/' {
            assert(name.contains('/'));
        }
    }
    assert(slashes_to_spaces(name) =~= name);
}

/// The result of a rewrite never contains a `/` character.
pub proof fn lemma_replace_name_no_slash(
    name: Seq<char>,
    old_root: Seq<char>,
    new_root: Seq<char>,
    exempt: Set<Seq<char>>,
)
    ensures
        !spec_replace_name(name, old_root, new_root, exempt).contains('/'),
{
    lemma_slashes_to_spaces_no_slash(spec_replace_name_base(name, old_root, new_root, exempt));
}

} // verus!
