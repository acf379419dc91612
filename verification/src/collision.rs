//! A registry of known identifier strings: replaced wholesale, queried
//! read-only in between. It also serves as the exemption set handed to the
//! name rewriter.

use vstd::prelude::*;

verus! {

/// The set of character sequences held by a list of strings.
pub open spec fn string_seq_as_set(values: Seq<String>) -> Set<Seq<char>> {
    Set::new(|k: Seq<char>| exists|i: int| 0 <= i < values.len() && values[i]@ == k)
}

/// A set of identifier strings. The view is the set of character sequences
/// of its members; duplicates in the backing vector are harmless.
pub struct KeySet {
    pub values: Vec<String>,
}

impl View for KeySet {
    type V = Set<Seq<char>>;

    open spec fn view(&self) -> Set<Seq<char>> {
        string_seq_as_set(self.values@)
    }
}

impl KeySet {
    /// An empty registry.
    pub fn new() -> (r: KeySet)
        ensures
            r@ == Set::<Seq<char>>::empty(),
    {
        let r = KeySet { values: Vec::new() };
        proof {
            assert(r@ =~= Set::<Seq<char>>::empty());
        }
        r
    }

    /// Whether `value` is a member of the registry.
    pub fn contains(&self, value: &str) -> (b: bool)
        ensures
            b == self@.contains(value@),
    {
        let owned = value.to_owned();
        let mut i: usize = 0;
        while i < self.values.len()
            invariant
                i <= self.values@.len(),
                owned@ == value@,
                forall|k: int| 0 <= k < i ==> self.values@[k]@ != value@,
            decreases self.values@.len() - i,
        {
            if self.values[i] == owned {
                proof {
                    assert(self@.contains(value@));
                }
                return true;
            }
            i += 1;
        }
        proof {
            if self@.contains(value@) {
                let j = choose|j: int|
                    0 <= j < self.values@.len() && self.values@[j]@ == value@;
                assert(false);
            }
        }
        false
    }
}

/// Replaces the whole registry with the given values.
pub fn populate_key_set(data: Vec<String>, state: &mut KeySet)
    ensures
        final(state).values@ == data@,
        final(state)@ == string_seq_as_set(data@),
{
    state.values = data;
}

/// Whether `value` is currently known to the registry.
pub fn check_in_set(value: String, state: &KeySet) -> (b: bool)
    ensures
        b == state@.contains(value@),
{
    state.contains(value.as_str())
}

} // verus!
