//! Severity-classified analysis messages and the keyed message map they are
//! collected in: a field name maps to the ordered list of findings about it.

use vstd::prelude::*;

verus! {

/// The sentinel key under which whole-document findings are filed.
pub const FILE_KEY: &'static str = "!__file__!";

/// The severity of a finding.
#[derive(Debug, Clone, Copy, PartialEq, Eq, Structural)]
pub enum ErrType {
    Error,
    Critical,
    Warning,
}

/// A finding: its text and its severity.
#[derive(Debug, Clone)]
pub struct ErrWan {
    pub text: String,
    pub severity: ErrType,
}

/// The mathematical shape of a finding.
pub struct ErrWanV {
    pub text: Seq<char>,
    pub severity: ErrType,
}

impl View for ErrWan {
    type V = ErrWanV;

    open spec fn view(&self) -> ErrWanV {
        ErrWanV { text: self.text@, severity: self.severity }
    }
}

impl ErrWan {
    /// An equal copy.
    pub fn duplicate(&self) -> (r: Self)
        ensures
            r == *self,
    {
        ErrWan { text: self.text.clone(), severity: self.severity }
    }
}

/// The identity of the configuration document a finding is about.
#[derive(Debug, Clone)]
pub struct ConfigDetails {
    pub name: String,
    pub file: String,
    pub family: Option<String>,
    pub location: String,
    pub config_type: String,
}

/// The mathematical shape of a document identity.
pub struct ConfigDetailsV {
    pub name: Seq<char>,
    pub file: Seq<char>,
    pub family: Option<Seq<char>>,
    pub location: Seq<char>,
    pub config_type: Seq<char>,
}

impl View for ConfigDetails {
    type V = ConfigDetailsV;

    open spec fn view(&self) -> ConfigDetailsV {
        ConfigDetailsV {
            name: self.name@,
            file: self.file@,
            family: match self.family {
                Option::Some(f) => Option::Some(f@),
                Option::None => Option::None,
            },
            location: self.location@,
            config_type: self.config_type@,
        }
    }
}

impl ConfigDetails {
    /// Bundles the identity of a configuration document.
    pub fn new(
        name: String,
        file: String,
        family: Option<String>,
        location: String,
        config_type: String,
    ) -> (r: Self)
        ensures
            r == (ConfigDetails { name, file, family, location, config_type }),
    {
        Self { name, file, family, location, config_type }
    }

    /// An equal copy.
    pub fn duplicate(&self) -> (r: Self)
        ensures
            r == *self,
    {
        ConfigDetails {
            name: self.name.clone(),
            file: self.file.clone(),
            family: match &self.family {
                Some(f) => Some(f.clone()),
                None => None,
            },
            location: self.location.clone(),
            config_type: self.config_type.clone(),
        }
    }
}

/// A finding attached to the document it is about.
#[derive(Debug, Clone)]
pub struct AnalysisMessageDetails {
    pub config_details: ConfigDetails,
    pub message: ErrWan,
}

/// The mathematical shape of a finding with its document identity.
pub struct AnalysisMessageDetailsV {
    pub config_details: ConfigDetailsV,
    pub message: ErrWanV,
}

impl View for AnalysisMessageDetails {
    type V = AnalysisMessageDetailsV;

    open spec fn view(&self) -> AnalysisMessageDetailsV {
        AnalysisMessageDetailsV { config_details: self.config_details@, message: self.message@ }
    }
}

impl AnalysisMessageDetails {
    /// An equal copy.
    pub fn duplicate(&self) -> (r: Self)
        ensures
            r == *self,
    {
        AnalysisMessageDetails {
            config_details: self.config_details.duplicate(),
            message: self.message.duplicate(),
        }
    }
}

/// The views of the values in a list, element by element.
pub open spec fn deep_seq<T: View>(s: Seq<T>) -> Seq<T::V> {
    Seq::new(s.len(), |i: int| s[i]@)
}

/// An ordered map from a field name to the list of values collected under
/// it. Lookups take the first entry with the key, and the operations below
/// never create a second entry for an existing key. Its view shows the
/// values through their own views.
pub struct AnalysisMap<T> {
    pub entries: Vec<(String, Vec<T>)>,
}

impl<T: View> View for AnalysisMap<T> {
    type V = Seq<(Seq<char>, Seq<T::V>)>;

    open spec fn view(&self) -> Seq<(Seq<char>, Seq<T::V>)> {
        Seq::new(
            self.entries@.len(),
            |i: int| (self.entries@[i].0@, deep_seq(self.entries@[i].1@)),
        )
    }
}

impl<T: View> AnalysisMap<T> {
    /// An empty map.
    pub fn new() -> (r: Self)
        ensures
            r@ == Seq::<(Seq<char>, Seq<T::V>)>::empty(),
    {
        let r = AnalysisMap { entries: Vec::new() };
        proof {
            assert(r@ =~= Seq::<(Seq<char>, Seq<T::V>)>::empty());
        }
        r
    }
}

/// The map after pushing `v` under `k`: appended to the first entry with
/// key `k`, or a new singleton entry at the end when `k` is absent.
pub open spec fn spec_insert_or_push<T>(
    m: Seq<(Seq<char>, Seq<T>)>,
    k: Seq<char>,
    v: T,
) -> Seq<(Seq<char>, Seq<T>)>
    decreases m,
{
    if m.len() == 0 {
        seq![(k, seq![v])]
    } else if m[0].0 == k {
        seq![(m[0].0, m[0].1.push(v))] + m.drop_first()
    } else {
        seq![m[0]] + spec_insert_or_push(m.drop_first(), k, v)
    }
}

proof fn lemma_insert_or_push_at<T>(m: Seq<(Seq<char>, Seq<T>)>, k: Seq<char>, v: T, i: int)
    requires
        0 <= i < m.len(),
        m[i].0 == k,
        forall|j: int| 0 <= j < i ==> (#[trigger] m[j]).0 != k,
    ensures
        spec_insert_or_push(m, k, v) == m.update(i, (m[i].0, m[i].1.push(v))),
    decreases i,
{
    if i == 0 {
        assert(spec_insert_or_push(m, k, v) =~= m.update(0, (m[0].0, m[0].1.push(v))));
    } else {
        lemma_insert_or_push_at(m.drop_first(), k, v, i - 1);
        assert(spec_insert_or_push(m, k, v) =~= m.update(i, (m[i].0, m[i].1.push(v))));
    }
}

proof fn lemma_insert_or_push_absent<T>(m: Seq<(Seq<char>, Seq<T>)>, k: Seq<char>, v: T)
    requires
        forall|j: int| 0 <= j < m.len() ==> (#[trigger] m[j]).0 != k,
    ensures
        spec_insert_or_push(m, k, v) == m.push((k, seq![v])),
    decreases m,
{
    if m.len() == 0 {
        assert(spec_insert_or_push(m, k, v) =~= m.push((k, seq![v])));
    } else {
        lemma_insert_or_push_absent(m.drop_first(), k, v);
        assert(spec_insert_or_push(m, k, v) =~= m.push((k, seq![v])));
    }
}

/// Pushes `value` under `key`: onto the entry already holding `key`, or as
/// a fresh entry at the end of the map.
#[verifier::loop_isolation(false)]
pub fn insert_or_push_into_map<T: View>(hash_map: &mut AnalysisMap<T>, key: String, value: T)
    ensures
        final(hash_map)@ == spec_insert_or_push(old(hash_map)@, key@, value@),
{
    let ghost m0 = hash_map@;
    let n = hash_map.entries.len();
    let mut i: usize = 0;
    while i < n
        invariant
            i <= n,
            n == hash_map.entries@.len(),
            *hash_map == *old(hash_map),
            forall|j: int| 0 <= j < i ==> (#[trigger] m0[j]).0 != key@,
        decreases n - i,
    {
        if hash_map.entries[i].0 == key {
            proof {
                lemma_insert_or_push_at(m0, key@, value@, i as int);
            }
            hash_map.entries[i].1.push(value);
            proof {
                assert(hash_map@[i as int].1 =~= m0[i as int].1.push(value@));
                assert(hash_map@ =~= m0.update(i as int, (m0[i as int].0, m0[i as int].1.push(
                    value@,
                ))));
            }
            return;
        }
        i += 1;
    }
    proof {
        lemma_insert_or_push_absent(m0, key@, value@);
    }
    let mut fresh: Vec<T> = Vec::new();
    fresh.push(value);
    hash_map.entries.push((key, fresh));
    proof {
        assert(deep_seq(fresh@) =~= seq![value@]);
        assert(hash_map@ =~= m0.push((key@, seq![value@])));
    }
}

/// The map after appending the whole list `vs` under `k`: appended to the
/// first entry with key `k`, or as a new entry at the end when absent.
pub open spec fn spec_add_entry<T>(
    m: Seq<(Seq<char>, Seq<T>)>,
    k: Seq<char>,
    vs: Seq<T>,
) -> Seq<(Seq<char>, Seq<T>)>
    decreases m,
{
    if m.len() == 0 {
        seq![(k, vs)]
    } else if m[0].0 == k {
        seq![(m[0].0, m[0].1 + vs)] + m.drop_first()
    } else {
        seq![m[0]] + spec_add_entry(m.drop_first(), k, vs)
    }
}

proof fn lemma_add_entry_at<T>(m: Seq<(Seq<char>, Seq<T>)>, k: Seq<char>, vs: Seq<T>, i: int)
    requires
        0 <= i < m.len(),
        m[i].0 == k,
        forall|j: int| 0 <= j < i ==> (#[trigger] m[j]).0 != k,
    ensures
        spec_add_entry(m, k, vs) == m.update(i, (m[i].0, m[i].1 + vs)),
    decreases i,
{
    if i == 0 {
        assert(spec_add_entry(m, k, vs) =~= m.update(0, (m[0].0, m[0].1 + vs)));
    } else {
        lemma_add_entry_at(m.drop_first(), k, vs, i - 1);
        assert(spec_add_entry(m, k, vs) =~= m.update(i, (m[i].0, m[i].1 + vs)));
    }
}

proof fn lemma_add_entry_absent<T>(m: Seq<(Seq<char>, Seq<T>)>, k: Seq<char>, vs: Seq<T>)
    requires
        forall|j: int| 0 <= j < m.len() ==> (#[trigger] m[j]).0 != k,
    ensures
        spec_add_entry(m, k, vs) == m.push((k, vs)),
    decreases m,
{
    if m.len() == 0 {
        assert(spec_add_entry(m, k, vs) =~= m.push((k, vs)));
    } else {
        lemma_add_entry_absent(m.drop_first(), k, vs);
        assert(spec_add_entry(m, k, vs) =~= m.push((k, vs)));
    }
}

/// Appends every value of `values` under `key`, preserving their order.
#[verifier::loop_isolation(false)]
fn add_entry<T: View>(map: &mut AnalysisMap<T>, key: String, values: Vec<T>)
    ensures
        final(map)@ == spec_add_entry(old(map)@, key@, deep_seq(values@)),
{
    let ghost m0 = map@;
    let ghost vs0 = deep_seq(values@);
    let n = map.entries.len();
    let mut i: usize = 0;
    while i < n
        invariant
            i <= n,
            n == map.entries@.len(),
            *map == *old(map),
            forall|j: int| 0 <= j < i ==> (#[trigger] m0[j]).0 != key@,
        decreases n - i,
    {
        if map.entries[i].0 == key {
            proof {
                lemma_add_entry_at(m0, key@, vs0, i as int);
            }
            let mut rest = values;
            while rest.len() > 0
                invariant
                    i < map.entries@.len() == m0.len(),
                    forall|j: int|
                        0 <= j < m0.len() && j != i ==> (#[trigger] map@[j]) == m0[j],
                    map@[i as int].0 == m0[i as int].0,
                    map@[i as int].1 + deep_seq(rest@) == m0[i as int].1 + vs0,
                decreases rest@.len(),
            {
                let ghost rest_before = rest@;
                let v = rest.remove(0);
                let ghost entries_before = map.entries@;
                let ghost view_before = map@;
                let ghost entry_before = map@[i as int].1;
                map.entries[i].1.push(v);
                proof {
                    assert(deep_seq(rest_before).drop_first() =~= deep_seq(rest@));
                    assert(map@[i as int].1 =~= entry_before.push(v@));
                    assert(v@ == deep_seq(rest_before)[0]);
                    assert(entry_before.push(v@) + deep_seq(rest@) =~= entry_before + deep_seq(
                        rest_before,
                    ));
                    assert forall|j: int| 0 <= j < m0.len() && j != i implies (#[trigger] map@[j])
                        == m0[j] by {
                        assert(map.entries@[j] == entries_before[j]);
                        assert(view_before[j] == m0[j]);
                    }
                }
            }
            proof {
                assert(deep_seq(rest@) =~= Seq::<T::V>::empty());
                assert(map@[i as int].1 + deep_seq(rest@) =~= map@[i as int].1);
                assert(map@ =~= m0.update(i as int, (m0[i as int].0, m0[i as int].1 + vs0)));
            }
            return;
        }
        i += 1;
    }
    proof {
        lemma_add_entry_absent(m0, key@, vs0);
    }
    map.entries.push((key, values));
    proof {
        assert(map@ =~= m0.push((key@, vs0)));
    }
}

/// The left map after folding in every entry of the right map, in order.
pub open spec fn spec_extend_combine<T>(
    l: Seq<(Seq<char>, Seq<T>)>,
    r: Seq<(Seq<char>, Seq<T>)>,
) -> Seq<(Seq<char>, Seq<T>)>
    decreases r,
{
    if r.len() == 0 {
        l
    } else {
        spec_extend_combine(spec_add_entry(l, r[0].0, r[0].1), r.drop_first())
    }
}

/// Folds every entry of the right map into the left one: values of a key
/// both maps hold are appended after the left map's, and keys only the
/// right map holds become new entries at the end, in the right map's order.
#[verifier::loop_isolation(false)]
pub fn extend_combine_map<T: View>(
    hash_map_left: &mut AnalysisMap<T>,
    has_map_right: AnalysisMap<T>,
)
    ensures
        final(hash_map_left)@ == spec_extend_combine(old(hash_map_left)@, has_map_right@),
{
    let ghost goal = spec_extend_combine(old(hash_map_left)@, has_map_right@);
    let mut right = has_map_right;
    while right.entries.len() > 0
        invariant
            goal == spec_extend_combine(hash_map_left@, right@),
        decreases right.entries@.len(),
    {
        let ghost r_before = right@;
        let (key, values) = right.entries.remove(0);
        proof {
            assert(right@ =~= r_before.drop_first());
            assert(deep_seq(values@) == r_before[0].1);
        }
        add_entry(hash_map_left, key, values);
    }
    proof {
        assert(right@ =~= Seq::<(Seq<char>, Seq<T::V>)>::empty());
    }
}

/// Pushing a value always leaves an entry holding the key, with the value
/// at the end of its list.
pub proof fn lemma_insert_or_push_membership<T>(m: Seq<(Seq<char>, Seq<T>)>, k: Seq<char>, v: T)
    ensures
        exists|i: int|
            {
                &&& 0 <= i < spec_insert_or_push(m, k, v).len()
                &&& (#[trigger] spec_insert_or_push(m, k, v)[i]).0 == k
                &&& spec_insert_or_push(m, k, v)[i].1.len() > 0
                &&& spec_insert_or_push(m, k, v)[i].1.last() == v
            },
    decreases m,
{
    let r = spec_insert_or_push(m, k, v);
    if m.len() == 0 {
        assert(r[0].0 == k && r[0].1.last() == v && r[0].1.len() > 0);
    } else if m[0].0 == k {
        assert(r[0].0 == k && r[0].1.last() == v && r[0].1.len() > 0);
    } else {
        lemma_insert_or_push_membership(m.drop_first(), k, v);
        let sub = spec_insert_or_push(m.drop_first(), k, v);
        let i = choose|i: int|
            0 <= i < sub.len() && (#[trigger] sub[i]).0 == k && sub[i].1.len() > 0
                && sub[i].1.last() == v;
        assert(r[i + 1] == sub[i]);
    }
}

/// Whether a finding belongs to the warning partition (`true`) or to the
/// error partition holding `Error` and `Critical` findings (`false`).
pub open spec fn spec_is_warning(m: AnalysisMessageDetailsV) -> bool {
    m.message.severity == ErrType::Warning
}

/// The findings of `msgs` that fall in the chosen partition, in order.
pub open spec fn spec_filter_messages(
    msgs: Seq<AnalysisMessageDetailsV>,
    warnings: bool,
) -> Seq<AnalysisMessageDetailsV>
    decreases msgs,
{
    if msgs.len() == 0 {
        Seq::empty()
    } else {
        let rest = spec_filter_messages(msgs.drop_first(), warnings);
        if spec_is_warning(msgs[0]) == warnings {
            seq![msgs[0]] + rest
        } else {
            rest
        }
    }
}

/// The map restricted to the chosen partition; a key with no finding left
/// is omitted.
pub open spec fn spec_filter_map(
    m: Seq<(Seq<char>, Seq<AnalysisMessageDetailsV>)>,
    warnings: bool,
) -> Seq<(Seq<char>, Seq<AnalysisMessageDetailsV>)>
    decreases m,
{
    if m.len() == 0 {
        Seq::empty()
    } else {
        let kept = spec_filter_messages(m[0].1, warnings);
        let rest = spec_filter_map(m.drop_first(), warnings);
        if kept.len() > 0 {
            seq![(m[0].0, kept)] + rest
        } else {
            rest
        }
    }
}

/// A finding on the right side of the partition survives filtering.
pub proof fn lemma_filter_messages_keeps(
    msgs: Seq<AnalysisMessageDetailsV>,
    j: int,
    warnings: bool,
)
    requires
        0 <= j < msgs.len(),
        spec_is_warning(msgs[j]) == warnings,
    ensures
        spec_filter_messages(msgs, warnings).contains(msgs[j]),
    decreases msgs,
{
    let r = spec_filter_messages(msgs, warnings);
    if j == 0 {
        assert(r[0] == msgs[0]);
    } else {
        lemma_filter_messages_keeps(msgs.drop_first(), j - 1, warnings);
        let rest = spec_filter_messages(msgs.drop_first(), warnings);
        let j2 = choose|j2: int| 0 <= j2 < rest.len() && rest[j2] == msgs.drop_first()[j - 1];
        if spec_is_warning(msgs[0]) == warnings {
            assert(r[j2 + 1] == rest[j2]);
        } else {
            assert(r[j2] == rest[j2]);
        }
        assert(msgs.drop_first()[j - 1] == msgs[j]);
    }
}

/// A key with a finding on the right side of the partition survives the
/// partitioning, keeping that finding.
pub proof fn lemma_filter_map_keeps(
    m: Seq<(Seq<char>, Seq<AnalysisMessageDetailsV>)>,
    i: int,
    j: int,
    warnings: bool,
)
    requires
        0 <= i < m.len(),
        0 <= j < m[i].1.len(),
        spec_is_warning(m[i].1[j]) == warnings,
    ensures
        exists|i2: int|
            {
                &&& 0 <= i2 < spec_filter_map(m, warnings).len()
                &&& (#[trigger] spec_filter_map(m, warnings)[i2]).0 == m[i].0
                &&& spec_filter_map(m, warnings)[i2].1.contains(m[i].1[j])
            },
    decreases m,
{
    let r = spec_filter_map(m, warnings);
    if i == 0 {
        lemma_filter_messages_keeps(m[0].1, j, warnings);
        let kept = spec_filter_messages(m[0].1, warnings);
        assert(kept.contains(m[0].1[j]));
        assert(kept.len() > 0);
        assert(r[0].0 == m[0].0 && r[0].1 == kept);
    } else {
        lemma_filter_map_keeps(m.drop_first(), i - 1, j, warnings);
        let sub = spec_filter_map(m.drop_first(), warnings);
        let i2 = choose|i2: int|
            0 <= i2 < sub.len() && (#[trigger] sub[i2]).0 == m.drop_first()[i - 1].0
                && sub[i2].1.contains(m.drop_first()[i - 1].1[j]);
        let kept0 = spec_filter_messages(m[0].1, warnings);
        if kept0.len() > 0 {
            assert(r[i2 + 1] == sub[i2]);
        } else {
            assert(r[i2] == sub[i2]);
        }
        assert(m.drop_first()[i - 1] == m[i]);
    }
}

/// The findings of one list that fall in the chosen partition.
#[verifier::loop_isolation(false)]
fn filter_messages(msgs: &Vec<AnalysisMessageDetails>, warnings: bool) -> (r: Vec<
    AnalysisMessageDetails,
>)
    ensures
        deep_seq(r@) == spec_filter_messages(deep_seq(msgs@), warnings),
{
    let ghost all = deep_seq(msgs@);
    let mut out: Vec<AnalysisMessageDetails> = Vec::new();
    let mut i: usize = 0;
    proof {
        assert(all.subrange(0, all.len() as int) =~= all);
        assert(deep_seq(out@) =~= Seq::<AnalysisMessageDetailsV>::empty());
    }
    while i < msgs.len()
        invariant
            i <= msgs@.len(),
            all == deep_seq(msgs@),
            spec_filter_messages(all, warnings) == deep_seq(out@) + spec_filter_messages(
                all.subrange(i as int, all.len() as int),
                warnings,
            ),
        decreases msgs@.len() - i,
    {
        proof {
            let tail = all.subrange(i as int, all.len() as int);
            assert(tail[0] == all[i as int]);
            assert(tail.drop_first() =~= all.subrange(i + 1, all.len() as int));
        }
        let keep = match msgs[i].message.severity {
            ErrType::Warning => warnings,
            _ => !warnings,
        };
        if keep {
            let ghost prev = out@;
            out.push(msgs[i].duplicate());
            proof {
                assert(deep_seq(out@) =~= deep_seq(prev) + seq![all[i as int]]);
                assert(deep_seq(prev) + (seq![all[i as int]] + spec_filter_messages(
                    all.subrange(i + 1, all.len() as int),
                    warnings,
                )) =~= deep_seq(out@) + spec_filter_messages(
                    all.subrange(i + 1, all.len() as int),
                    warnings,
                ));
            }
        }
        i += 1;
    }
    proof {
        assert(all.subrange(all.len() as int, all.len() as int) =~= Seq::<
            AnalysisMessageDetailsV,
        >::empty());
        assert(deep_seq(out@) + Seq::<AnalysisMessageDetailsV>::empty() =~= deep_seq(out@));
    }
    out
}

/// Partitions the collected findings: `Error` and `Critical` findings in
/// the first map, `Warning` findings in the second, dropping keys with no
/// finding in a partition.
#[verifier::loop_isolation(false)]
pub fn filter_analysis_results_into_errors_and_warning(
    analysis_result: AnalysisMap<AnalysisMessageDetails>,
) -> (r: (AnalysisMap<AnalysisMessageDetails>, AnalysisMap<AnalysisMessageDetails>))
    ensures
        r.0@ == spec_filter_map(analysis_result@, false),
        r.1@ == spec_filter_map(analysis_result@, true),
{
    let ghost all = analysis_result@;
    let mut errors: AnalysisMap<AnalysisMessageDetails> = AnalysisMap::new();
    let mut warnings: AnalysisMap<AnalysisMessageDetails> = AnalysisMap::new();
    let mut i: usize = 0;
    proof {
        assert(all.subrange(0, all.len() as int) =~= all);
    }
    while i < analysis_result.entries.len()
        invariant
            i <= analysis_result.entries@.len(),
            all == analysis_result@,
            spec_filter_map(all, false) == errors@ + spec_filter_map(
                all.subrange(i as int, all.len() as int),
                false,
            ),
            spec_filter_map(all, true) == warnings@ + spec_filter_map(
                all.subrange(i as int, all.len() as int),
                true,
            ),
        decreases analysis_result.entries@.len() - i,
    {
        proof {
            let tail = all.subrange(i as int, all.len() as int);
            assert(tail[0] == all[i as int]);
            assert(tail.drop_first() =~= all.subrange(i + 1, all.len() as int));
        }
        let entry_errors = filter_messages(&analysis_result.entries[i].1, false);
        if entry_errors.len() > 0 {
            let ghost prev = errors@;
            errors.entries.push((analysis_result.entries[i].0.clone(), entry_errors));
            proof {
                assert(errors@ =~= prev + seq![(all[i as int].0, spec_filter_messages(
                    all[i as int].1,
                    false,
                ))]);
                assert(prev + (seq![(all[i as int].0, spec_filter_messages(all[i as int].1, false))]
                    + spec_filter_map(all.subrange(i + 1, all.len() as int), false)) =~= errors@
                    + spec_filter_map(all.subrange(i + 1, all.len() as int), false));
            }
        }
        let entry_warnings = filter_messages(&analysis_result.entries[i].1, true);
        if entry_warnings.len() > 0 {
            let ghost prev = warnings@;
            warnings.entries.push((analysis_result.entries[i].0.clone(), entry_warnings));
            proof {
                assert(warnings@ =~= prev + seq![(all[i as int].0, spec_filter_messages(
                    all[i as int].1,
                    true,
                ))]);
                assert(prev + (seq![(all[i as int].0, spec_filter_messages(all[i as int].1, true))]
                    + spec_filter_map(all.subrange(i + 1, all.len() as int), true)) =~= warnings@
                    + spec_filter_map(all.subrange(i + 1, all.len() as int), true));
            }
        }
        i += 1;
    }
    proof {
        assert(all.subrange(all.len() as int, all.len() as int) =~= Seq::<
            (Seq<char>, Seq<AnalysisMessageDetailsV>),
        >::empty());
        assert(errors@ + Seq::<(Seq<char>, Seq<AnalysisMessageDetailsV>)>::empty() =~= errors@);
        assert(warnings@ + Seq::<(Seq<char>, Seq<AnalysisMessageDetailsV>)>::empty() =~= warnings@);
    }
    (errors, warnings)
}

} // verus!
