//! Searching and cutting byte strings: the few operations on text that the
//! directive format and the event-stream framing are built from.

use vstd::prelude::*;
use vstd::slice::slice_subrange;
use vstd::string::StringSliceAdditionalSpecFns;

verus! {

/// The view of an optional string.
pub open spec fn text_of(s: Option<String>) -> Option<Seq<char>> {
    match s {
        Some(t) => Some(t@),
        None => None,
    }
}

/// `pat` stands in `hay` at position `i`.
pub open spec fn occurs_at(hay: Seq<u8>, pat: Seq<u8>, i: int) -> bool {
    0 <= i && i + pat.len() <= hay.len() && hay.subrange(i, i + pat.len()) == pat
}

/// `pat` stands somewhere in `hay`.
pub open spec fn occurs(hay: Seq<u8>, pat: Seq<u8>) -> bool {
    exists|i: int| occurs_at(hay, pat, i)
}

/// `i` is the leftmost position at which `pat` stands in `hay`.
pub open spec fn is_first_occurrence(hay: Seq<u8>, pat: Seq<u8>, i: int) -> bool {
    occurs_at(hay, pat, i) && forall|j: int| 0 <= j < i ==> !occurs_at(hay, pat, j)
}

/// `i` is the rightmost position at which `pat` stands in `hay`.
pub open spec fn is_last_occurrence(hay: Seq<u8>, pat: Seq<u8>, i: int) -> bool {
    occurs_at(hay, pat, i) && forall|j: int| i < j ==> !occurs_at(hay, pat, j)
}

/// The leftmost position of `pat` in `hay`, if there is one.
pub open spec fn first_occurrence(hay: Seq<u8>, pat: Seq<u8>) -> Option<int> {
    if occurs(hay, pat) {
        Some(choose|i: int| is_first_occurrence(hay, pat, i))
    } else {
        None
    }
}

/// The rightmost position of `pat` in `hay`, if there is one.
pub open spec fn last_occurrence(hay: Seq<u8>, pat: Seq<u8>) -> Option<int> {
    if occurs(hay, pat) {
        Some(choose|i: int| is_last_occurrence(hay, pat, i))
    } else {
        None
    }
}

/// `hay` ends in `pat`.
pub open spec fn has_suffix(hay: Seq<u8>, pat: Seq<u8>) -> bool {
    occurs_at(hay, pat, hay.len() - pat.len())
}

/// `hay` without every leading repetition of `pat`.
pub open spec fn without_leading(hay: Seq<u8>, pat: Seq<u8>) -> Seq<u8>
    decreases hay.len(),
{
    if pat.len() > 0 && occurs_at(hay, pat, 0) {
        without_leading(hay.subrange(pat.len() as int, hay.len() as int), pat)
    } else {
        hay
    }
}

/// A leftmost position is the only leftmost position.
pub proof fn lemma_first_occurrence(hay: Seq<u8>, pat: Seq<u8>, i: int)
    requires
        is_first_occurrence(hay, pat, i),
    ensures
        first_occurrence(hay, pat) == Some(i),
{
    let c = choose|k: int| is_first_occurrence(hay, pat, k);
    assert(occurs_at(hay, pat, i));
    assert(is_first_occurrence(hay, pat, c));
    if c < i {
        assert(!occurs_at(hay, pat, c));
    }
    if i < c {
        assert(!occurs_at(hay, pat, i));
    }
}

/// A rightmost position is the only rightmost position.
pub proof fn lemma_last_occurrence(hay: Seq<u8>, pat: Seq<u8>, i: int)
    requires
        is_last_occurrence(hay, pat, i),
    ensures
        last_occurrence(hay, pat) == Some(i),
{
    let c = choose|k: int| is_last_occurrence(hay, pat, k);
    assert(occurs_at(hay, pat, i));
    assert(is_last_occurrence(hay, pat, c));
    if c < i {
        assert(!occurs_at(hay, pat, i));
    }
    if i < c {
        assert(!occurs_at(hay, pat, c));
    }
}

/// Whether `pat` stands in `hay` at position `at`.
pub fn matches_at(hay: &[u8], pat: &[u8], at: usize) -> (r: bool)
    ensures
        r == occurs_at(hay@, pat@, at as int),
{
    if at > hay.len() || pat.len() > hay.len() - at {
        return false;
    }
    let mut k: usize = 0;
    while k < pat.len()
        invariant
            k <= pat.len(),
            at + pat.len() <= hay.len(),
            forall|j: int| 0 <= j < k ==> hay@[at + j] == pat@[j],
        decreases pat.len() - k,
    {
        if hay[at + k] != pat[k] {
            assert(hay@.subrange(at as int, at + pat.len())[k as int] == hay@[at + k]);
            return false;
        }
        k += 1;
    }
    assert(hay@.subrange(at as int, at + pat.len()) =~= pat@);
    true
}

/// The leftmost position of `pat` in `hay`.
pub fn find_first(hay: &[u8], pat: &[u8]) -> (r: Option<usize>)
    ensures
        match r {
            Some(i) => is_first_occurrence(hay@, pat@, i as int) && first_occurrence(hay@, pat@)
                == Some(i as int),
            None => first_occurrence(hay@, pat@) is None,
        },
{
    if pat.len() > hay.len() {
        return None;
    }
    let last: usize = hay.len() - pat.len();
    let mut i: usize = 0;
    loop
        invariant
            last == hay.len() - pat.len(),
            i <= last,
            forall|j: int| 0 <= j < i ==> !occurs_at(hay@, pat@, j),
        decreases last - i,
    {
        if matches_at(hay, pat, i) {
            proof {
                lemma_first_occurrence(hay@, pat@, i as int);
            }
            return Some(i);
        }
        if i == last {
            return None;
        }
        i += 1;
    }
}

/// The rightmost position of `pat` in `hay`.
pub fn find_last(hay: &[u8], pat: &[u8]) -> (r: Option<usize>)
    ensures
        match r {
            Some(i) => is_last_occurrence(hay@, pat@, i as int) && last_occurrence(hay@, pat@)
                == Some(i as int),
            None => last_occurrence(hay@, pat@) is None,
        },
{
    if pat.len() > hay.len() {
        return None;
    }
    let mut i: usize = hay.len() - pat.len();
    loop
        invariant
            i <= hay.len() - pat.len(),
            pat.len() <= hay.len(),
            forall|j: int| i < j ==> !occurs_at(hay@, pat@, j),
        decreases i,
    {
        if matches_at(hay, pat, i) {
            proof {
                lemma_last_occurrence(hay@, pat@, i as int);
            }
            return Some(i);
        }
        if i == 0 {
            return None;
        }
        i -= 1;
    }
}

/// Whether `pat` stands somewhere in `hay`.
pub fn contains(hay: &[u8], pat: &[u8]) -> (r: bool)
    ensures
        r == occurs(hay@, pat@),
{
    find_first(hay, pat).is_some()
}

/// Whether `hay` ends in `pat`.
pub fn ends_with(hay: &[u8], pat: &[u8]) -> (r: bool)
    ensures
        r == has_suffix(hay@, pat@),
{
    if pat.len() > hay.len() {
        return false;
    }
    matches_at(hay, pat, hay.len() - pat.len())
}

/// `hay` without every leading repetition of `pat`.
pub fn strip_leading<'a>(hay: &'a [u8], pat: &[u8]) -> (r: &'a [u8])
    ensures
        r@ == without_leading(hay@, pat@),
{
    if pat.len() == 0 {
        return hay;
    }
    let mut start: usize = 0;
    assert(hay@.subrange(0, hay.len() as int) =~= hay@);
    while matches_at(hay, pat, start)
        invariant
            pat.len() > 0,
            start <= hay.len(),
            without_leading(hay@, pat@) == without_leading(
                hay@.subrange(start as int, hay.len() as int),
                pat@,
            ),
        decreases hay.len() - start,
    {
        proof {
            let rest = hay@.subrange(start as int, hay.len() as int);
            assert(rest.subrange(0, pat.len() as int) =~= hay@.subrange(
                start as int,
                start + pat.len(),
            ));
            assert(rest.subrange(pat.len() as int, rest.len() as int) =~= hay@.subrange(
                start + pat.len(),
                hay.len() as int,
            ));
        }
        start += pat.len();
    }
    proof {
        let rest = hay@.subrange(start as int, hay.len() as int);
        if start + pat.len() <= hay.len() {
            assert(rest.subrange(0, pat.len() as int) =~= hay@.subrange(
                start as int,
                start + pat.len(),
            ));
        }
    }
    slice_subrange(hay, start, hay.len())
}

/// Whether two strings hold the same text.
pub fn str_eq(a: &str, b: &str) -> (r: bool)
    ensures
        r == (a@ == b@),
{
    broadcast use vstd::utf8::encode_utf8_decode_utf8;

    let x = a.as_bytes();
    let y = b.as_bytes();
    if x.len() != y.len() {
        return false;
    }
    let r = matches_at(x, y, 0);
    proof {
        assert(x@.subrange(0, x@.len() as int) =~= x@);
        if r {
            assert(vstd::utf8::decode_utf8(a.spec_bytes()) == a@);
            assert(vstd::utf8::decode_utf8(b.spec_bytes()) == b@);
        }
    }
    r
}

} // verus!
