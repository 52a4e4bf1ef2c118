//! Small verified helpers over byte vectors: prefix tests, substring search,
//! equality, copying and concatenation. Message text, identifiers and URLs
//! all travel through the pipeline as plain bytes.

use vstd::prelude::*;

verus! {

/// `pat` occurs in `t` starting at index `j`.
pub open spec fn prefix_at(t: Seq<u8>, j: int, pat: Seq<u8>) -> bool {
    &&& 0 <= j
    &&& j + pat.len() <= t.len()
    &&& forall|k: int| 0 <= k < pat.len() ==> t[j + k] == pat[k]
}

/// `needle` occurs somewhere in `hay`.
pub open spec fn contains_seq(hay: Seq<u8>, needle: Seq<u8>) -> bool {
    exists|k: int| prefix_at(hay, k, needle)
}

/// Does `pat` occur in `t` starting at index `j`?
pub fn has_prefix_at(t: &Vec<u8>, j: usize, pat: &Vec<u8>) -> (r: bool)
    ensures
        r == prefix_at(t@, j as int, pat@),
{
    if j > t.len() || pat.len() > t.len() - j {
        return false;
    }
    let mut k: usize = 0;
    while k < pat.len()
        invariant
            j + pat.len() <= t.len(),
            k <= pat.len(),
            forall|m: int| 0 <= m < k ==> t@[j + m] == pat@[m],
        decreases pat.len() - k,
    {
        if t[j + k] != pat[k] {
            return false;
        }
        k += 1;
    }
    true
}

/// Does `needle` occur anywhere in `hay`?
pub fn contains_bytes(hay: &Vec<u8>, needle: &Vec<u8>) -> (r: bool)
    ensures
        r == contains_seq(hay@, needle@),
{
    if needle.len() > hay.len() {
        proof {
            assert forall|k: int| !prefix_at(hay@, k, needle@) by {}
        }
        return false;
    }
    let last = hay.len() - needle.len();
    let mut k: usize = 0;
    while k <= last
        invariant
            needle.len() <= hay.len(),
            last == hay.len() - needle.len(),
            k <= last + 1,
            forall|m: int| 0 <= m < k ==> !prefix_at(hay@, m, needle@),
        decreases last + 1 - k,
    {
        if has_prefix_at(hay, k, needle) {
            return true;
        }
        k += 1;
    }
    proof {
        assert forall|m: int| !prefix_at(hay@, m, needle@) by {
            if m > last as int {
                assert(m + needle@.len() > hay@.len());
            }
        }
    }
    false
}

/// Are the two byte vectors equal?
pub fn bytes_eq(a: &Vec<u8>, b: &Vec<u8>) -> (r: bool)
    ensures
        r == (a@ == b@),
{
    if a.len() != b.len() {
        return false;
    }
    let mut i: usize = 0;
    while i < a.len()
        invariant
            a.len() == b.len(),
            i <= a.len(),
            forall|m: int| 0 <= m < i ==> a@[m] == b@[m],
        decreases a.len() - i,
    {
        if a[i] != b[i] {
            return false;
        }
        i += 1;
    }
    proof {
        assert(a@ =~= b@);
    }
    true
}

/// Copies `t[s..e]` into a fresh vector.
pub fn copy_range(t: &Vec<u8>, s: usize, e: usize) -> (r: Vec<u8>)
    requires
        s <= e <= t.len(),
    ensures
        r@ == t@.subrange(s as int, e as int),
{
    let mut r: Vec<u8> = Vec::new();
    let mut i: usize = s;
    while i < e
        invariant
            s <= i <= e <= t.len(),
            r@ == t@.subrange(s as int, i as int),
        decreases e - i,
    {
        r.push(t[i]);
        proof {
            assert(r@ =~= t@.subrange(s as int, i + 1));
        }
        i += 1;
    }
    r
}

/// Copies a whole byte vector.
pub fn clone_bytes(v: &Vec<u8>) -> (r: Vec<u8>)
    ensures
        r@ == v@,
{
    let r = copy_range(v, 0, v.len());
    proof {
        assert(v@.subrange(0, v@.len() as int) =~= v@);
    }
    r
}

/// Appends all of `src` to `dst`.
pub fn push_bytes(dst: &mut Vec<u8>, src: &Vec<u8>)
    ensures
        final(dst)@ == old(dst)@ + src@,
{
    let mut i: usize = 0;
    while i < src.len()
        invariant
            i <= src.len(),
            dst@ == old(dst)@ + src@.subrange(0, i as int),
        decreases src.len() - i,
    {
        dst.push(src[i]);
        proof {
            assert(old(dst)@ + src@.subrange(0, i + 1) =~= (old(dst)@ + src@.subrange(
                0,
                i as int,
            )).push(src@[i as int]));
        }
        i += 1;
    }
    proof {
        assert(src@.subrange(0, src@.len() as int) =~= src@);
    }
}

} // verus!
