//! Helpers over byte strings: prefix tests and substring search.

use vstd::prelude::*;
use vstd::slice::{slice_subrange, slice_to_vec};

verus! {

/// The bytes of an ASCII string, character by character.
pub open spec fn ascii_of(s: &str) -> Seq<u8> {
    Seq::new(s@.len(), |i: int| s@[i] as u8)
}

/// Turns an ASCII string literal into its bytes.
pub fn lit_bytes(s: &str) -> (r: Vec<u8>)
    requires
        vstd::string::is_ascii(s),
    ensures
        r@ == ascii_of(s),
{
    let b = s.as_bytes();
    proof {
        vstd::string::is_ascii_spec_bytes(s);
    }
    vstd::slice::slice_to_vec(b)
}

/// `needle` occurs in `hay` starting at position `at`.
pub open spec fn occurs_at(hay: Seq<u8>, needle: Seq<u8>, at: int) -> bool {
    0 <= at && at + needle.len() <= hay.len() && hay.subrange(at, at + needle.len()) == needle
}

/// `needle` occurs somewhere in `hay`.
pub open spec fn contains_subseq(hay: Seq<u8>, needle: Seq<u8>) -> bool {
    exists|at: int| occurs_at(hay, needle, at)
}

/// `hay` starts with `needle`.
pub open spec fn starts_with(hay: Seq<u8>, needle: Seq<u8>) -> bool {
    needle.len() <= hay.len() && hay.subrange(0, needle.len() as int) == needle
}

/// Compares two byte slices for equality.
pub fn bytes_eq(a: &[u8], b: &[u8]) -> (r: bool)
    ensures
        r == (a@ == b@),
{
    if a.len() != b.len() {
        assert(a@.len() != b@.len());
        return false;
    }
    let n: usize = a.len();
    let mut i: usize = 0;
    while i < n
        invariant
            n == a@.len() && n == b@.len(),
            0 <= i <= n,
            forall|k: int| 0 <= k < i ==> a@[k] == b@[k],
        decreases n - i,
    {
        if a[i] != b[i] {
            return false;
        }
        i = i + 1;
    }
    assert(a@ =~= b@);
    true
}

/// Does `hay` begin with `needle`?
pub fn slice_starts_with(hay: &[u8], needle: &[u8]) -> (r: bool)
    ensures
        r == starts_with(hay@, needle@),
{
    if needle.len() > hay.len() {
        return false;
    }
    let n: usize = needle.len();
    let mut i: usize = 0;
    while i < n
        invariant
            n == needle@.len(),
            n <= hay@.len(),
            0 <= i <= n,
            forall|k: int| 0 <= k < i ==> hay@[k] == needle@[k],
        decreases n - i,
    {
        if hay[i] != needle[i] {
            assert(hay@.subrange(0, n as int)[i as int] != needle@[i as int]);
            return false;
        }
        i = i + 1;
    }
    assert(hay@.subrange(0, n as int) =~= needle@);
    true
}

/// The position of the first occurrence of `needle` in `hay`; nothing
/// when it does not occur. The empty needle occurs at the front.
pub open spec fn find_first(hay: Seq<u8>, needle: Seq<u8>) -> Option<int>
    decreases hay.len(),
{
    if starts_with(hay, needle) {
        Some(0)
    } else if hay.len() == 0 {
        None
    } else {
        match find_first(hay.drop_first(), needle) {
            Some(i) => Some(1 + i),
            None => None,
        }
    }
}

/// An occurrence is a match of the needle against the suffix there.
proof fn lemma_occurs_is_suffix_match(hay: Seq<u8>, needle: Seq<u8>, at: int)
    requires
        0 <= at <= hay.len(),
    ensures
        occurs_at(hay, needle, at) == starts_with(hay.skip(at), needle),
{
    if at + needle.len() <= hay.len() {
        assert(hay.skip(at).subrange(0, needle.len() as int) =~= hay.subrange(
            at,
            at + needle.len(),
        ));
    }
}

/// The first occurrence is where the first occurrence stands.
proof fn lemma_find_first_at(hay: Seq<u8>, needle: Seq<u8>, m: int)
    requires
        0 <= m <= hay.len(),
        forall|j: int| 0 <= j < m ==> !occurs_at(hay, needle, j),
        occurs_at(hay, needle, m),
    ensures
        find_first(hay, needle) == Some(m),
    decreases m,
{
    lemma_occurs_is_suffix_match(hay, needle, m);
    if m == 0 {
        assert(hay.skip(0) =~= hay);
        assert(starts_with(hay, needle));
    } else {
        assert(!occurs_at(hay, needle, 0));
        lemma_occurs_is_suffix_match(hay, needle, 0);
        assert(hay.skip(0) =~= hay);
        assert(!starts_with(hay, needle));
        let h1 = hay.drop_first();
        assert forall|j: int| 0 <= j < m - 1 implies !occurs_at(h1, needle, j) by {
            lemma_occurs_is_suffix_match(hay, needle, j + 1);
            lemma_occurs_is_suffix_match(h1, needle, j);
            assert(h1.skip(j) =~= hay.skip(j + 1));
        }
        assert(occurs_at(h1, needle, m - 1)) by {
            lemma_occurs_is_suffix_match(hay, needle, m);
            lemma_occurs_is_suffix_match(h1, needle, m - 1);
            assert(h1.skip(m - 1) =~= hay.skip(m));
        }
        lemma_find_first_at(h1, needle, m - 1);
    }
}

/// Where the needle never occurs, nothing is found.
proof fn lemma_find_first_none(hay: Seq<u8>, needle: Seq<u8>)
    requires
        forall|j: int| !occurs_at(hay, needle, j),
    ensures
        find_first(hay, needle) is None,
    decreases hay.len(),
{
    lemma_occurs_is_suffix_match(hay, needle, 0);
    assert(hay.skip(0) =~= hay);
    assert(!starts_with(hay, needle));
    if hay.len() > 0 {
        let h1 = hay.drop_first();
        assert forall|j: int| !occurs_at(h1, needle, j) by {
            if 0 <= j <= h1.len() {
                lemma_occurs_is_suffix_match(hay, needle, j + 1);
                lemma_occurs_is_suffix_match(h1, needle, j);
                assert(h1.skip(j) =~= hay.skip(j + 1));
            }
        }
        lemma_find_first_none(h1, needle);
    }
}

/// Finds the first occurrence of `needle` in `hay`.
pub fn find_subslice(hay: &[u8], needle: &[u8]) -> (r: Option<usize>)
    ensures
        match r {
            Some(at) => find_first(hay@, needle@) == Some(at as int) && at + needle@.len()
                <= hay@.len(),
            None => find_first(hay@, needle@) is None,
        },
{
    let hlen: usize = hay.len();
    let nlen: usize = needle.len();
    if nlen > hlen {
        proof {
            assert forall|j: int| !occurs_at(hay@, needle@, j) by {}
            lemma_find_first_none(hay@, needle@);
        }
        return None;
    }
    let last: usize = hlen - nlen;
    let mut s: usize = 0;
    loop
        invariant
            hlen == hay@.len(),
            nlen == needle@.len(),
            nlen <= hlen,
            last == hlen - nlen,
            0 <= s <= last + 1,
            forall|at: int| 0 <= at < s ==> !occurs_at(hay@, needle@, at),
        decreases last + 1 - s,
    {
        if s > last {
            proof {
                assert forall|j: int| !occurs_at(hay@, needle@, j) by {}
                lemma_find_first_none(hay@, needle@);
            }
            return None;
        }
        let window = slice_subrange(hay, s, s + nlen);
        if bytes_eq(window, needle) {
            proof {
                assert(occurs_at(hay@, needle@, s as int)) by {
                    assert(hay@.subrange(s as int, s + needle@.len()) =~= needle@);
                }
                lemma_find_first_at(hay@, needle@, s as int);
            }
            return Some(s);
        }
        proof {
            assert(!occurs_at(hay@, needle@, s as int)) by {
                if occurs_at(hay@, needle@, s as int) {
                    assert(hay@.subrange(s as int, s + needle@.len()) == needle@);
                }
            }
            assert(nlen > 0) by {
                if nlen == 0 {
                    assert(window@ =~= needle@);
                }
            }
        }
        s = s + 1;
    }
}

/// Replacing a pattern, left to right: each occurrence of `from`, found
/// first-to-last without overlap, becomes `to`.
pub open spec fn spec_replace_all(s: Seq<u8>, from: Seq<u8>, to: Seq<u8>) -> Seq<u8>
    decreases s.len(),
{
    if from.len() == 0 {
        s
    } else {
        match find_first(s, from) {
            Some(i) => if 0 <= i && i + from.len() <= s.len() {
                s.take(i) + to + spec_replace_all(s.skip(i + from.len()), from, to)
            } else {
                s
            },
            None => s,
        }
    }
}

/// A found occurrence lies inside the string.
proof fn lemma_find_first_in_bounds(hay: Seq<u8>, needle: Seq<u8>, i: int)
    requires
        find_first(hay, needle) == Some(i),
    ensures
        0 <= i && i + needle.len() <= hay.len(),
    decreases hay.len(),
{
    if starts_with(hay, needle) {
    } else if hay.len() > 0 {
        match find_first(hay.drop_first(), needle) {
            Some(j) => {
                lemma_find_first_in_bounds(hay.drop_first(), needle, j);
            },
            None => {},
        }
    }
}

/// Replaces every occurrence of `from` with `to`, left to right.
pub fn replace_all(s: &[u8], from: &[u8], to: &[u8]) -> (r: Vec<u8>)
    requires
        from@.len() > 0,
    ensures
        r@ == spec_replace_all(s@, from@, to@),
    decreases s@.len(),
{
    match find_subslice(s, from) {
        None => slice_to_vec(s),
        Some(at) => {
            let slen: usize = s.len();
            proof {
                lemma_find_first_in_bounds(s@, from@, at as int);
            }
            let mut r = slice_to_vec(slice_subrange(s, 0, at));
            let mut mid = slice_to_vec(to);
            r.append(&mut mid);
            let rest_start = at + from.len();
            let ghost pre = r@;
            let mut rest = replace_all(slice_subrange(s, rest_start, s.len()), from, to);
            r.append(&mut rest);
            proof {
                assert(s@.take(at as int) =~= s@.subrange(0, at as int));
                assert(s@.skip(at + from@.len()) =~= s@.subrange(
                    rest_start as int,
                    s@.len() as int,
                ));
            }
            r
        },
    }
}

/// Does `needle` occur anywhere in `hay`?
pub fn slice_contains(hay: &[u8], needle: &[u8]) -> (r: bool)
    ensures
        r == contains_subseq(hay@, needle@),
{
    if needle.len() > hay.len() {
        assert(!contains_subseq(hay@, needle@)) by {
            assert forall|at: int| !occurs_at(hay@, needle@, at) by {}
        }
        return false;
    }
    let hlen: usize = hay.len();
    let nlen: usize = needle.len();
    let last: usize = hlen - nlen;
    let mut s: usize = 0;
    loop
        invariant
            hlen == hay@.len(),
            nlen == needle@.len(),
            nlen <= hlen,
            last == hlen - nlen,
            0 <= s <= last + 1,
            forall|at: int| 0 <= at < s ==> !occurs_at(hay@, needle@, at),
        decreases last + 1 - s,
    {
        if s > last {
            assert(forall|at: int| occurs_at(hay@, needle@, at) ==> 0 <= at <= last);
            return false;
        }
        let mut i: usize = 0;
        let mut matched = true;
        while i < nlen
            invariant
                hlen == hay@.len(),
                nlen == needle@.len(),
                nlen <= hlen,
                0 <= s <= hlen - nlen,
                0 <= i <= nlen,
                matched == (forall|k: int| 0 <= k < i ==> hay@[s + k] == needle@[k]),
            decreases nlen - i,
        {
            if hay[s + i] != needle[i] {
                assert(hay@[s + i] != needle@[i as int]);
                matched = false;
                i = nlen;
            } else {
                i = i + 1;
            }
        }
        if matched {
            assert(occurs_at(hay@, needle@, s as int)) by {
                assert(hay@.subrange(s as int, s + needle@.len()) =~= needle@);
            }
            return true;
        }
        assert(!occurs_at(hay@, needle@, s as int)) by {
            if occurs_at(hay@, needle@, s as int) {
                assert(forall|k: int| 0 <= k < needle@.len()
                    ==> hay@.subrange(s as int, s + needle@.len())[k] == needle@[k]);
                assert(forall|k: int| 0 <= k < needle@.len() ==> hay@[s + k] == needle@[k]);
            }
        }
        s = s + 1;
    }
}

} // verus!
