//! Character-level string utilities: conversion between `str` and `Vec<char>`,
//! substring search and replacement, and the lower-casing boundary.

use vstd::prelude::*;
use vstd::string::StrSliceExecFns;

verus! {

/// The characters of `s` as a vector, in order.
pub fn chars_of(s: &str) -> (r: Vec<char>)
    ensures
        r@ == s@,
{
    let n = s.unicode_len();
    let mut out: Vec<char> = Vec::new();
    let mut i: usize = 0;
    while i < n
        invariant
            i <= n,
            n == s@.len(),
            out@ == s@.subrange(0, i as int),
        decreases n - i,
    {
        out.push(s.get_char(i));
        i += 1;
        proof {
            assert(out@ =~= s@.subrange(0, i as int));
        }
    }
    proof {
        assert(out@ =~= s@);
    }
    out
}

/// Relies on `core::iter::Iterator::collect` for `String`: collecting a
/// sequence of `char`s yields the string of exactly those characters.
#[verifier::external_body]
pub(crate) fn string_from_chars(v: &Vec<char>) -> (r: String)
    ensures
        r@ == v@,
{
    v.iter().collect()
}

/// Whether two string slices hold the same characters.
pub fn str_eq(a: &str, b: &str) -> (r: bool)
    ensures
        r == (a@ == b@),
{
    let ao = a.to_owned();
    let bo = b.to_owned();
    ao == bo
}

/// The lower-cased form of a sequence of characters, as `str::to_lowercase`
/// computes it. It depends on the characters alone.
pub uninterp spec fn lower_of(s: Seq<char>) -> Seq<char>;

/// Relies on `str::to_lowercase`: the result is a function of the input
/// characters alone, and an empty string stays empty.
#[verifier::external_body]
pub(crate) fn lowercase(s: &str) -> (r: String)
    ensures
        r@ == lower_of(s@),
        s@.len() == 0 ==> r@.len() == 0,
{
    s.to_lowercase()
}

/// Whether `t` starts with the prefix `pre`.
pub open spec fn has_prefix(t: Seq<char>, pre: Seq<char>) -> bool {
    t.len() >= pre.len() && t.subrange(0, pre.len() as int) == pre
}

/// The last position of `c` in `s`, or -1 when it does not occur.
pub open spec fn last_index_of(s: Seq<char>, c: char) -> int
    decreases s,
{
    if s.len() == 0 {
        -1
    } else if s.last() == c {
        s.len() - 1
    } else {
        last_index_of(s.drop_last(), c)
    }
}

/// `last_index_of` finds an occurrence, and none stands after it.
pub proof fn lemma_last_index_of(s: Seq<char>, c: char)
    ensures
        last_index_of(s, c) >= 0 ==> {
            &&& last_index_of(s, c) < s.len()
            &&& s[last_index_of(s, c)] == c
            &&& forall|j: int| last_index_of(s, c) < j < s.len() ==> s[j] != c
        },
        last_index_of(s, c) < 0 ==> forall|j: int| 0 <= j < s.len() ==> s[j] != c,
    decreases s,
{
    if s.len() > 0 && s.last() != c {
        lemma_last_index_of(s.drop_last(), c);
        assert(forall|j: int| 0 <= j < s.len() - 1 ==> s[j] == s.drop_last()[j]);
    }
}

/// The last position of `c` in `v`, searching from the end.
pub fn rfind_char(v: &Vec<char>, c: char) -> (r: Option<usize>)
    ensures
        match r {
            Option::Some(i) => i == last_index_of(v@, c),
            Option::None => last_index_of(v@, c) < 0,
        },
{
    let mut i: usize = v.len();
    proof {
        assert(v@.subrange(0, v@.len() as int) =~= v@);
    }
    while i > 0
        invariant
            i <= v@.len(),
            last_index_of(v@.subrange(0, i as int), c) == last_index_of(v@, c),
        decreases i,
    {
        proof {
            assert(v@.subrange(0, i as int).drop_last() =~= v@.subrange(0, i - 1));
            assert(v@.subrange(0, i as int).last() == v@[i - 1]);
        }
        i -= 1;
        if v[i] == c {
            return Some(i);
        }
    }
    proof {
        assert(v@.subrange(0, 0) =~= Seq::<char>::empty());
    }
    None
}

/// The first `n` characters of `v`.
pub fn prefix_chars(v: &Vec<char>, n: usize) -> (r: Vec<char>)
    requires
        n <= v@.len(),
    ensures
        r@ == v@.subrange(0, n as int),
{
    let mut out: Vec<char> = Vec::new();
    let mut i: usize = 0;
    while i < n
        invariant
            i <= n <= v@.len(),
            out@ == v@.subrange(0, i as int),
        decreases n - i,
    {
        out.push(v[i]);
        i += 1;
        proof {
            assert(out@ =~= v@.subrange(0, i as int));
        }
    }
    out
}

/// The first position of `c` in `s`, or -1 when it does not occur.
pub open spec fn first_index_of(s: Seq<char>, c: char) -> int
    decreases s,
{
    if s.len() == 0 {
        -1
    } else if s[0] == c {
        0
    } else {
        let rest = first_index_of(s.drop_first(), c);
        if rest < 0 {
            -1
        } else {
            rest + 1
        }
    }
}

/// `first_index_of` finds an occurrence, and none stands before it.
pub proof fn lemma_first_index_of(s: Seq<char>, c: char)
    ensures
        first_index_of(s, c) >= 0 ==> {
            &&& first_index_of(s, c) < s.len()
            &&& s[first_index_of(s, c)] == c
            &&& forall|j: int| 0 <= j < first_index_of(s, c) ==> s[j] != c
        },
        first_index_of(s, c) < 0 ==> forall|j: int| 0 <= j < s.len() ==> s[j] != c,
    decreases s,
{
    if s.len() > 0 && s[0] != c {
        lemma_first_index_of(s.drop_first(), c);
        let fi = first_index_of(s, c);
        if fi >= 0 {
            assert(s[fi] == s.drop_first()[fi - 1]);
            assert forall|j: int| 0 <= j < fi implies s[j] != c by {
                if j > 0 {
                    assert(s[j] == s.drop_first()[j - 1]);
                }
            }
        } else {
            assert forall|j: int| 0 <= j < s.len() implies s[j] != c by {
                if j > 0 {
                    assert(s[j] == s.drop_first()[j - 1]);
                }
            }
        }
    }
}

/// The parts of `s` between occurrences of `sep`, in order; an `s` without
/// `sep` is one part, and an empty `s` is one empty part.
pub open spec fn split_at_sep(s: Seq<char>, sep: char) -> Seq<Seq<char>>
    decreases s.len(),
{
    let i = first_index_of(s, sep);
    if i < 0 || i + 1 > s.len() {
        seq![s]
    } else {
        seq![s.subrange(0, i)] + split_at_sep(s.subrange(i + 1, s.len() as int), sep)
    }
}

/// The parts joined back with `sep` between them.
pub open spec fn join_with_sep(parts: Seq<Seq<char>>, sep: char) -> Seq<char>
    decreases parts,
{
    if parts.len() == 0 {
        Seq::empty()
    } else if parts.len() == 1 {
        parts[0]
    } else {
        parts[0] + seq![sep] + join_with_sep(parts.drop_first(), sep)
    }
}

/// The views of a vector of character vectors.
pub open spec fn charss_view(s: Seq<Vec<char>>) -> Seq<Seq<char>> {
    Seq::new(s.len(), |i: int| s[i]@)
}

/// Splits `s` at every occurrence of `sep`, as `str::split` does.
#[verifier::loop_isolation(false)]
pub fn split_chars(s: &Vec<char>, sep: char) -> (parts: Vec<Vec<char>>)
    ensures
        charss_view(parts@) == split_at_sep(s@, sep),
{
    let mut out: Vec<Vec<char>> = Vec::new();
    let mut start: usize = 0;
    let mut i: usize = 0;
    proof {
        assert(s@.subrange(0, s@.len() as int) =~= s@);
        assert(charss_view(out@) =~= Seq::<Seq<char>>::empty());
    }
    while i < s.len()
        invariant
            start <= i <= s@.len(),
            split_at_sep(s@, sep) == charss_view(out@) + split_at_sep(
                s@.subrange(start as int, s@.len() as int),
                sep,
            ),
            forall|j: int| start <= j < i ==> s@[j] != sep,
        decreases s@.len() - i,
    {
        if s[i] == sep {
            let part = crate::strings::sub_chars(s, start, i);
            let ghost prev = out@;
            out.push(part);
            proof {
                let tail = s@.subrange(start as int, s@.len() as int);
                lemma_first_index_of(tail, sep);
                assert forall|j: int| 0 <= j < i - start implies tail[j] != sep by {
                    assert(tail[j] == s@[start + j]);
                }
                assert(tail[i - start] == sep);
                if first_index_of(tail, sep) < i - start {
                    assert(tail[first_index_of(tail, sep)] == sep);
                }
                if first_index_of(tail, sep) > i - start {
                    assert(tail[i - start] != sep);
                }
                assert(first_index_of(tail, sep) == i - start);
                assert(tail.subrange(0, i - start) =~= s@.subrange(start as int, i as int));
                assert(tail.subrange(i - start + 1, tail.len() as int) =~= s@.subrange(
                    i + 1,
                    s@.len() as int,
                ));
                assert(charss_view(out@) =~= charss_view(prev) + seq![
                    s@.subrange(start as int, i as int),
                ]);
                assert(charss_view(prev) + (seq![s@.subrange(start as int, i as int)]
                    + split_at_sep(s@.subrange(i + 1, s@.len() as int), sep)) =~= charss_view(out@)
                    + split_at_sep(s@.subrange(i + 1, s@.len() as int), sep));
            }
            start = i + 1;
        }
        i += 1;
    }
    let last_part = crate::strings::sub_chars(s, start, s.len());
    let ghost prev = out@;
    out.push(last_part);
    proof {
        let tail = s@.subrange(start as int, s@.len() as int);
        lemma_first_index_of(tail, sep);
        if first_index_of(tail, sep) >= 0 {
            assert(tail[first_index_of(tail, sep)] == sep);
            assert(tail[first_index_of(tail, sep)] == s@[start + first_index_of(tail, sep)]);
        }
        assert(split_at_sep(tail, sep) == seq![tail]);
        assert(charss_view(out@) =~= charss_view(prev) + seq![tail]);
        assert(charss_view(prev) + seq![tail] =~= charss_view(out@));
    }
    out
}

/// The characters of `v` from `from` to `to`.
pub fn sub_chars(v: &Vec<char>, from: usize, to: usize) -> (r: Vec<char>)
    requires
        from <= to <= v@.len(),
    ensures
        r@ == v@.subrange(from as int, to as int),
{
    let mut out: Vec<char> = Vec::new();
    let mut i: usize = from;
    while i < to
        invariant
            from <= i <= to <= v@.len(),
            out@ == v@.subrange(from as int, i as int),
        decreases to - i,
    {
        out.push(v[i]);
        i += 1;
        proof {
            assert(out@ =~= v@.subrange(from as int, i as int));
        }
    }
    out
}

/// `join_with_sep` unfolds from the front for a non-empty part list.
proof fn lemma_join_head(parts: Seq<Seq<char>>, sep: char)
    requires
        parts.len() >= 1,
    ensures
        join_with_sep(parts, sep) == parts[0] + join_tail(parts.drop_first(), sep),
    decreases parts,
{
    if parts.len() == 1 {
        assert(parts.drop_first().len() == 0);
        assert(join_with_sep(parts, sep) =~= parts[0] + join_tail(parts.drop_first(), sep));
    } else {
        lemma_join_head(parts.drop_first(), sep);
        assert(join_with_sep(parts, sep) =~= parts[0] + join_tail(parts.drop_first(), sep));
    }
}

/// The tail of a joined list: a separator before every remaining part.
pub open spec fn join_tail(parts: Seq<Seq<char>>, sep: char) -> Seq<char>
    decreases parts,
{
    if parts.len() == 0 {
        Seq::empty()
    } else {
        seq![sep] + parts[0] + join_tail(parts.drop_first(), sep)
    }
}

/// Joins parts with `sep` between them, as `[&str]::join` does.
#[verifier::loop_isolation(false)]
pub fn join_chars(parts: &Vec<Vec<char>>, sep: char) -> (r: Vec<char>)
    ensures
        r@ == join_with_sep(charss_view(parts@), sep),
{
    let ghost all = charss_view(parts@);
    let mut out: Vec<char> = Vec::new();
    if parts.len() == 0 {
        proof {
            assert(out@ =~= join_with_sep(all, sep));
        }
        return out;
    }
    append_chars(&mut out, &parts[0]);
    proof {
        lemma_join_head(all, sep);
        assert(all.drop_first() =~= all.subrange(1, all.len() as int));
    }
    let mut i: usize = 1;
    while i < parts.len()
        invariant
            1 <= i <= parts@.len(),
            all == charss_view(parts@),
            join_with_sep(all, sep) == out@ + join_tail(
                all.subrange(i as int, all.len() as int),
                sep,
            ),
        decreases parts@.len() - i,
    {
        proof {
            let tail = all.subrange(i as int, all.len() as int);
            assert(tail[0] == all[i as int]);
            assert(tail.drop_first() =~= all.subrange(i + 1, all.len() as int));
        }
        let ghost prev = out@;
        out.push(sep);
        append_chars(&mut out, &parts[i]);
        proof {
            assert(out@ =~= prev + seq![sep] + all[i as int]);
            assert(prev + (seq![sep] + all[i as int] + join_tail(
                all.subrange(i + 1, all.len() as int),
                sep,
            )) =~= out@ + join_tail(all.subrange(i + 1, all.len() as int), sep));
        }
        i += 1;
    }
    proof {
        assert(all.subrange(all.len() as int, all.len() as int) =~= Seq::<Seq<char>>::empty());
        assert(out@ =~= out@ + Seq::<char>::empty());
    }
    out
}

/// The pattern `p` occurs in `s` starting at position `i`.
pub open spec fn match_at(s: Seq<char>, p: Seq<char>, i: int) -> bool {
    0 <= i && i + p.len() <= s.len() && s.subrange(i, i + p.len()) == p
}

/// The pattern `p` occurs somewhere in `s` (always true for an empty `p`).
pub open spec fn contains_seq(s: Seq<char>, p: Seq<char>) -> bool {
    exists|i: int| match_at(s, p, i)
}

/// Every occurrence of `p` in `s` replaced by `r`, scanning left to right,
/// as `str::replace` does. An empty pattern matches at every character
/// boundary, so the replacement is interleaved around every character.
pub open spec fn replace_all(s: Seq<char>, p: Seq<char>, r: Seq<char>) -> Seq<char>
    decreases s.len(),
{
    if s.len() == 0 {
        if p.len() == 0 {
            r
        } else {
            s
        }
    } else if p.len() == 0 {
        r + s.subrange(0, 1) + replace_all(s.subrange(1, s.len() as int), p, r)
    } else if s.len() >= p.len() && s.subrange(0, p.len() as int) == p {
        r + replace_all(s.subrange(p.len() as int, s.len() as int), p, r)
    } else {
        s.subrange(0, 1) + replace_all(s.subrange(1, s.len() as int), p, r)
    }
}

/// Appends every character of `src` to `out`.
pub fn append_chars(out: &mut Vec<char>, src: &Vec<char>)
    ensures
        final(out)@ == old(out)@ + src@,
{
    let mut i: usize = 0;
    while i < src.len()
        invariant
            i <= src@.len(),
            out@ == old(out)@ + src@.subrange(0, i as int),
        decreases src@.len() - i,
    {
        out.push(src[i]);
        i += 1;
        proof {
            assert(out@ =~= old(out)@ + src@.subrange(0, i as int));
        }
    }
    proof {
        assert(out@ =~= old(out)@ + src@);
    }
}

/// Whether `p` occurs in `s` at position `i` (both as character vectors).
fn is_match_at(s: &Vec<char>, p: &Vec<char>, i: usize) -> (b: bool)
    requires
        i + p@.len() <= s@.len(),
    ensures
        b == match_at(s@, p@, i as int),
{
    let mut j: usize = 0;
    while j < p.len()
        invariant
            j <= p@.len(),
            i + p@.len() <= s@.len(),
            forall|k: int| 0 <= k < j ==> s@[i + k] == p@[k],
        decreases p@.len() - j,
    {
        proof {
            assert(s.len() == s@.len());
            assert(i + j < s@.len());
        }
        if s[i + j] != p[j] {
            proof {
                assert(s@.subrange(i as int, i + p@.len())[j as int] == s@[i + j]);
            }
            return false;
        }
        j += 1;
    }
    proof {
        assert(s@.subrange(i as int, i + p@.len()) =~= p@);
    }
    true
}

/// Whether `p` occurs anywhere in `s`, as `str::contains` reports it.
pub fn contains_chars(s: &Vec<char>, p: &Vec<char>) -> (b: bool)
    ensures
        b == contains_seq(s@, p@),
{
    if p.len() > s.len() {
        proof {
            assert(forall|i: int| !match_at(s@, p@, i));
        }
        return false;
    }
    if p.len() == 0 {
        proof {
            assert(s@.subrange(0, 0) =~= p@);
            assert(match_at(s@, p@, 0));
        }
        return true;
    }
    let last = s.len() - p.len();
    let mut i: usize = 0;
    loop
        invariant
            i <= last + 1,
            last == s@.len() - p@.len(),
            1 <= p@.len() <= s@.len(),
            s@.len() == s.len(),
            forall|k: int| 0 <= k < i ==> !match_at(s@, p@, k),
        decreases last + 1 - i,
    {
        if i > last {
            proof {
                assert(forall|k: int| match_at(s@, p@, k) ==> 0 <= k <= last);
            }
            return false;
        }
        if is_match_at(s, p, i) {
            return true;
        }
        i += 1;
    }
}

/// Every occurrence of `p` in `s` replaced by `r`, scanning left to right,
/// as `str::replace` computes it.
pub fn replace_chars(s: &Vec<char>, p: &Vec<char>, r: &Vec<char>) -> (out: Vec<char>)
    ensures
        out@ == replace_all(s@, p@, r@),
{
    let mut out: Vec<char> = Vec::new();
    proof {
        assert(s@.subrange(0, s@.len() as int) =~= s@);
    }
    if p.len() == 0 {
        let mut i: usize = 0;
        while i < s.len()
            invariant
                i <= s@.len(),
                p@.len() == 0,
                replace_all(s@, p@, r@) == out@ + replace_all(
                    s@.subrange(i as int, s@.len() as int),
                    p@,
                    r@,
                ),
            decreases s@.len() - i,
        {
            proof {
                assert(p@ =~= Seq::<char>::empty());
                lemma_replace_step_empty(s@, r@, i as int);
            }
            let ghost prev = out@;
            append_chars(&mut out, r);
            out.push(s[i]);
            proof {
                assert(out@ =~= prev + r@ + s@.subrange(i as int, i + 1));
                assert(prev + (r@ + s@.subrange(i as int, i + 1) + replace_all(
                    s@.subrange(i + 1, s@.len() as int),
                    p@,
                    r@,
                )) =~= (prev + r@ + s@.subrange(i as int, i + 1)) + replace_all(
                    s@.subrange(i + 1, s@.len() as int),
                    p@,
                    r@,
                ));
            }
            i += 1;
        }
        append_chars(&mut out, r);
        proof {
            assert(s@.subrange(s@.len() as int, s@.len() as int) =~= Seq::<char>::empty());
        }
        return out;
    }
    let mut i: usize = 0;
    while i < s.len()
        invariant
            i <= s@.len(),
            p@.len() > 0,
            replace_all(s@, p@, r@) == out@ + replace_all(
                s@.subrange(i as int, s@.len() as int),
                p@,
                r@,
            ),
        decreases s@.len() - i,
    {
        if s.len() - i >= p.len() && is_match_at(s, p, i) {
            proof {
                lemma_replace_step_match(s@, p@, r@, i as int);
            }
            append_chars(&mut out, r);
            i += p.len();
        } else {
            proof {
                lemma_replace_step_char(s@, p@, r@, i as int);
            }
            out.push(s[i]);
            i += 1;
        }
    }
    proof {
        assert(s@.subrange(s@.len() as int, s@.len() as int) =~= Seq::<char>::empty());
        assert(replace_all(Seq::<char>::empty(), p@, r@) =~= Seq::<char>::empty());
        assert(out@ =~= out@ + Seq::<char>::empty());
    }
    out
}

proof fn lemma_replace_step_empty(s: Seq<char>, r: Seq<char>, i: int)
    requires
        0 <= i < s.len(),
    ensures
        replace_all(s.subrange(i, s.len() as int), Seq::<char>::empty(), r) == r + s.subrange(
            i,
            i + 1,
        ) + replace_all(s.subrange(i + 1, s.len() as int), Seq::<char>::empty(), r),
{
    let tail = s.subrange(i, s.len() as int);
    assert(tail.len() > 0);
    assert(tail.subrange(0, 1) =~= s.subrange(i, i + 1));
    assert(tail.subrange(1, tail.len() as int) =~= s.subrange(i + 1, s.len() as int));
}

proof fn lemma_replace_step_match(s: Seq<char>, p: Seq<char>, r: Seq<char>, i: int)
    requires
        p.len() > 0,
        match_at(s, p, i),
    ensures
        replace_all(s.subrange(i, s.len() as int), p, r) == r + replace_all(
            s.subrange(i + p.len(), s.len() as int),
            p,
            r,
        ),
{
    let tail = s.subrange(i, s.len() as int);
    assert(tail.subrange(0, p.len() as int) =~= s.subrange(i, i + p.len()));
    assert(tail.subrange(p.len() as int, tail.len() as int) =~= s.subrange(
        i + p.len(),
        s.len() as int,
    ));
}

proof fn lemma_replace_step_char(s: Seq<char>, p: Seq<char>, r: Seq<char>, i: int)
    requires
        p.len() > 0,
        0 <= i < s.len(),
        !match_at(s, p, i),
    ensures
        replace_all(s.subrange(i, s.len() as int), p, r) == s.subrange(i, i + 1) + replace_all(
            s.subrange(i + 1, s.len() as int),
            p,
            r,
        ),
{
    let tail = s.subrange(i, s.len() as int);
    assert(tail.len() > 0);
    if tail.len() >= p.len() {
        assert(tail.subrange(0, p.len() as int) =~= s.subrange(i, i + p.len()));
        assert(tail.subrange(0, p.len() as int) != p) by {
            if tail.subrange(0, p.len() as int) == p {
                assert(match_at(s, p, i));
            }
        }
    }
    assert(tail.subrange(0, 1) =~= s.subrange(i, i + 1));
    assert(tail.subrange(1, tail.len() as int) =~= s.subrange(i + 1, s.len() as int));
}

} // verus!
