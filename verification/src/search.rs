//! Exact, non-overlapping substring search over byte sequences.
//!
//! Both the anchor model and the resolver locate occurrences of one byte
//! string inside another by a left-to-right scan that, after each match,
//! resumes immediately past the end of the match, so overlapping occurrences
//! are never double-counted.

use vstd::prelude::*;

verus! {

broadcast use vstd::slice::group_slice_axioms;

/// `needle` occurs in `hay` starting at position `i`.
pub open spec fn is_match_at(hay: Seq<u8>, needle: Seq<u8>, i: int) -> bool {
    &&& 0 <= i
    &&& i + needle.len() <= hay.len()
    &&& hay.subrange(i, i + needle.len() as int) == needle
}

/// `needle` occurs somewhere in `hay`.
pub open spec fn contains_seq(hay: Seq<u8>, needle: Seq<u8>) -> bool {
    exists|i: int| is_match_at(hay, needle, i)
}

/// Offsets of the non-overlapping left-to-right matches of `needle` in `hay`,
/// scanning from position `from`: the scan tries each position in turn and,
/// on a match, resumes past the end of that match.
pub open spec fn match_offsets_from(hay: Seq<u8>, needle: Seq<u8>, from: int) -> Seq<int>
    decreases hay.len() - from when 0 <= from && 0 < needle.len()
{
    if needle.len() == 0 || from < 0 || from + needle.len() > hay.len() {
        Seq::empty()
    } else if is_match_at(hay, needle, from) {
        seq![from] + match_offsets_from(hay, needle, from + needle.len() as int)
    } else {
        match_offsets_from(hay, needle, from + 1)
    }
}

/// Offsets of all non-overlapping left-to-right matches of `needle` in `hay`.
/// An empty needle yields no matches.
pub open spec fn match_offsets(hay: Seq<u8>, needle: Seq<u8>) -> Seq<int> {
    if needle.len() == 0 {
        Seq::empty()
    } else {
        match_offsets_from(hay, needle, 0)
    }
}

/// Every offset reported by the scan from `from` lies at or past `from` and
/// is a match, and consecutive offsets are at least the needle's length apart.
pub proof fn lemma_match_offsets_from_sound(hay: Seq<u8>, needle: Seq<u8>, from: int)
    requires
        0 <= from,
        0 < needle.len(),
    ensures
        forall|k: int| 0 <= k < match_offsets_from(hay, needle, from).len()
            ==> from <= #[trigger] match_offsets_from(hay, needle, from)[k]
                && is_match_at(hay, needle, match_offsets_from(hay, needle, from)[k]),
        forall|k: int| 0 <= k < match_offsets_from(hay, needle, from).len() - 1
            ==> #[trigger] match_offsets_from(hay, needle, from)[k] + needle.len()
                <= match_offsets_from(hay, needle, from)[k + 1],
    decreases hay.len() - from,
{
    let offs = match_offsets_from(hay, needle, from);
    if needle.len() == 0 || from + needle.len() > hay.len() {
        assert(offs.len() == 0);
    } else if is_match_at(hay, needle, from) {
        lemma_match_offsets_from_sound(hay, needle, from + needle.len() as int);
        let rest = match_offsets_from(hay, needle, from + needle.len() as int);
        assert(offs == seq![from] + rest);
        assert forall|k: int| 0 <= k < offs.len()
            implies from <= #[trigger] offs[k] && is_match_at(hay, needle, offs[k]) by {
            if k > 0 {
                assert(offs[k] == rest[k - 1]);
                assert(from + needle.len() <= rest[k - 1]);
                assert(is_match_at(hay, needle, rest[k - 1]));
            } else {
                assert(offs[0] == from);
            }
        }
        assert forall|k: int| 0 <= k < offs.len() - 1
            implies #[trigger] offs[k] + needle.len() <= offs[k + 1] by {
            if k > 0 {
                assert(offs[k] == rest[k - 1]);
                assert(offs[k + 1] == rest[k]);
                assert(rest[k - 1] + needle.len() <= rest[k]);
            } else {
                assert(offs[0] == from);
                assert(offs[1] == rest[0]);
                assert(from + needle.len() <= rest[0]);
            }
        }
    } else {
        lemma_match_offsets_from_sound(hay, needle, from + 1);
        assert(offs == match_offsets_from(hay, needle, from + 1));
    }
    assert(forall|k: int| 0 <= k < offs.len()
        ==> from <= #[trigger] offs[k] && is_match_at(hay, needle, offs[k]));
    assert(forall|k: int| 0 <= k < offs.len() - 1
        ==> #[trigger] offs[k] + needle.len() <= offs[k + 1]);
}

/// The offsets reported for a non-empty needle are matches, come in strictly
/// increasing order, and consecutive offsets are at least the needle's length
/// apart, so the reported occurrences never overlap.
pub proof fn lemma_match_offsets_ordered(hay: Seq<u8>, needle: Seq<u8>)
    requires
        0 < needle.len(),
    ensures
        forall|k: int| 0 <= k < match_offsets(hay, needle).len()
            ==> is_match_at(hay, needle, #[trigger] match_offsets(hay, needle)[k]),
        forall|k: int| 0 <= k < match_offsets(hay, needle).len() - 1
            ==> #[trigger] match_offsets(hay, needle)[k] + needle.len()
                <= match_offsets(hay, needle)[k + 1],
{
    lemma_match_offsets_from_sound(hay, needle, 0);
}

/// The scan from `from` reports an offset if and only if some match starts at
/// or past `from`: no occurrence is passed over.
pub proof fn lemma_match_offsets_from_complete(hay: Seq<u8>, needle: Seq<u8>, from: int)
    requires
        0 <= from,
        0 < needle.len(),
    ensures
        match_offsets_from(hay, needle, from).len() == 0
            <==> forall|i: int| from <= i ==> !is_match_at(hay, needle, i),
    decreases hay.len() - from,
{
    if from + needle.len() > hay.len() {
        assert forall|i: int| from <= i implies !is_match_at(hay, needle, i) by {}
    } else if is_match_at(hay, needle, from) {
    } else {
        lemma_match_offsets_from_complete(hay, needle, from + 1);
        if match_offsets_from(hay, needle, from).len() == 0 {
            assert forall|i: int| from <= i implies !is_match_at(hay, needle, i) by {
                if i > from {
                    assert(!is_match_at(hay, needle, i));
                }
            }
        }
    }
}

/// A non-empty needle has at least one reported occurrence if and only if it
/// occurs in the haystack at all.
pub proof fn lemma_match_offsets_nonempty_iff_contains(hay: Seq<u8>, needle: Seq<u8>)
    requires
        0 < needle.len(),
    ensures
        match_offsets(hay, needle).len() > 0 <==> contains_seq(hay, needle),
{
    lemma_match_offsets_from_complete(hay, needle, 0);
    if match_offsets(hay, needle).len() == 0 {
        assert forall|i: int| !is_match_at(hay, needle, i) by {
            if i >= 0 {
                assert(!is_match_at(hay, needle, i));
            }
        }
    }
}

/// Compares `needle` against `hay` at position `at`.
pub fn bytes_match_at(hay: &[u8], needle: &[u8], at: usize) -> (r: bool)
    requires
        at + needle@.len() <= hay@.len(),
    ensures
        r == is_match_at(hay@, needle@, at as int),
{
    let n = needle.len();
    let m = hay.len();
    let mut j: usize = 0;
    while j < n
        invariant
            n == needle@.len(),
            m == hay@.len(),
            at + n <= m,
            0 <= j <= n,
            forall|k: int| 0 <= k < j ==> hay@[at + k] == needle@[k],
        decreases n - j,
    {
        if hay[at + j] != needle[j] {
            proof {
                let sub = hay@.subrange(at as int, at + needle@.len() as int);
                assert(sub[j as int] == hay@[at + j]);
                assert(sub != needle@);
            }
            return false;
        }
        j += 1;
    }
    proof {
        assert(hay@.subrange(at as int, at + needle@.len() as int) =~= needle@);
    }
    true
}

/// Whether `needle` occurs anywhere in `hay`. An empty needle occurs in every
/// haystack (it matches at position zero).
pub fn bytes_contain(hay: &[u8], needle: &[u8]) -> (r: bool)
    ensures
        r == contains_seq(hay@, needle@),
{
    if needle.is_empty() {
        proof {
            assert(is_match_at(hay@, needle@, 0)) by {
                assert(hay@.subrange(0, 0) =~= needle@);
            }
        }
        return true;
    }
    if needle.len() > hay.len() {
        proof {
            assert(forall|i: int| !is_match_at(hay@, needle@, i));
        }
        return false;
    }
    let last = hay.len() - needle.len();
    let mut i: usize = 0;
    loop
        invariant
            0 < needle@.len() <= hay@.len(),
            hay@.len() <= usize::MAX,
            last == hay@.len() - needle@.len(),
            0 <= i <= last + 1,
            forall|k: int| 0 <= k < i ==> !is_match_at(hay@, needle@, k),
        decreases last + 1 - i,
    {
        if i > last {
            proof {
                assert(forall|k: int| k > last ==> !is_match_at(hay@, needle@, k));
            }
            return false;
        }
        if bytes_match_at(hay, needle, i) {
            return true;
        }
        i += 1;
    }
}

/// Offsets of all non-overlapping left-to-right matches of `needle` in `hay`.
pub fn byte_match_offsets(hay: &[u8], needle: &[u8]) -> (r: Vec<usize>)
    ensures
        r@.map_values(|x: usize| x as int) == match_offsets(hay@, needle@),
        forall|k: int| 0 <= k < r@.len() ==> #[trigger] r@[k] <= hay@.len(),
{
    let mut r: Vec<usize> = Vec::new();
    if needle.len() == 0 || needle.len() > hay.len() {
        proof {
            assert(r@.map_values(|x: usize| x as int) =~= match_offsets(hay@, needle@));
        }
        return r;
    }
    let last = hay.len() - needle.len();
    let mut pos: usize = 0;
    loop
        invariant
            0 < needle@.len() <= hay@.len(),
            hay@.len() <= usize::MAX,
            last == hay@.len() - needle@.len(),
            0 <= pos <= hay@.len() + 1,
            match_offsets(hay@, needle@)
                == r@.map_values(|x: usize| x as int)
                    + match_offsets_from(hay@, needle@, pos as int),
            forall|k: int| 0 <= k < r@.len() ==> #[trigger] r@[k] <= hay@.len(),
        decreases hay@.len() + 1 - pos,
    {
        if pos > last {
            proof {
                assert(match_offsets_from(hay@, needle@, pos as int) =~= Seq::<int>::empty());
                assert(match_offsets(hay@, needle@)
                    =~= r@.map_values(|x: usize| x as int));
            }
            return r;
        }
        if bytes_match_at(hay, needle, pos) {
            proof {
                let mapped = r@.map_values(|x: usize| x as int);
                assert(match_offsets_from(hay@, needle@, pos as int)
                    == seq![pos as int] + match_offsets_from(
                        hay@, needle@, pos + needle@.len() as int));
                assert(r@.push(pos).map_values(|x: usize| x as int)
                    =~= mapped + seq![pos as int]);
                assert(mapped + (seq![pos as int] + match_offsets_from(
                        hay@, needle@, pos + needle@.len() as int))
                    =~= (mapped + seq![pos as int]) + match_offsets_from(
                        hay@, needle@, pos + needle@.len() as int));
            }
            r.push(pos);
            pos += needle.len();
        } else {
            pos += 1;
        }
    }
}

} // verus!
