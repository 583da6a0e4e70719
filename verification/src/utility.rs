//! Byte-sequence helpers: subsequence search and small copy routines.

use vstd::prelude::*;

verus! {

/// True when `needle` occurs in `hay` as a contiguous subsequence
/// starting at index `i`.
pub open spec fn matches_at(hay: Seq<u8>, needle: Seq<u8>, i: int) -> bool {
    &&& 0 <= i
    &&& i + needle.len() <= hay.len()
    &&& forall|k: int| 0 <= k < needle.len() ==> hay[i + k] == needle[k]
}

/// Lowest index at which `right` occurs contiguously in `left`, scanning
/// left to right, or `None` when there is no occurrence.  An empty haystack
/// or an empty needle always answers `None`.
pub fn search_u8_vec(left: &Vec<u8>, right: &Vec<u8>) -> (r: Option<usize>)
    ensures
        match r {
            Some(i) => {
                &&& left@.len() > 0
                &&& right@.len() > 0
                &&& matches_at(left@, right@, i as int)
                &&& forall|j: int| 0 <= j < i ==> !matches_at(left@, right@, j)
            },
            None => left@.len() == 0 || right@.len() == 0 || forall|j: int|
                !matches_at(left@, right@, j),
        },
{
    if left.len() == 0 || right.len() == 0 {
        return None;
    }

    let mut i: usize = 0;
    while i < left.len()
        invariant
            left@.len() > 0,
            right@.len() > 0,
            left@.len() <= usize::MAX,
            i <= left@.len(),
            forall|j: int| 0 <= j < i ==> !matches_at(left@, right@, j),
        decreases left@.len() - i,
    {
        if right.len() > left.len() - i {
            proof {
                assert forall|j: int| !matches_at(left@, right@, j) by {
                    if i <= j {
                        assert(j + right@.len() > left@.len());
                    }
                }
            }
            return None;
        }

        let mut k: usize = 0;
        let mut hit = true;
        while k < right.len()
            invariant
                right@.len() > 0,
                left@.len() <= usize::MAX,
                i + right@.len() <= left@.len(),
                k <= right@.len(),
                hit ==> forall|t: int| 0 <= t < k ==> left@[i + t] == right@[t],
                !hit ==> !matches_at(left@, right@, i as int),
            decreases right@.len() - k,
        {
            if left[i + k] != right[k] {
                hit = false;
                k = right.len();
            } else {
                k = k + 1;
            }
        }
        if hit {
            return Some(i);
        }
        i = i + 1;
    }

    proof {
        assert forall|j: int| !matches_at(left@, right@, j) by {
            if left@.len() <= j {
                assert(j + right@.len() > left@.len());
            }
        }
    }
    None
}

/// Whether two byte vectors hold the same bytes.
pub fn vec_u8_eq(a: &Vec<u8>, b: &Vec<u8>) -> (r: bool)
    ensures
        r == (a@ == b@),
{
    if a.len() != b.len() {
        return false;
    }
    let mut i: usize = 0;
    while i < a.len()
        invariant
            a@.len() == b@.len(),
            i <= a@.len(),
            forall|j: int| 0 <= j < i ==> a@[j] == b@[j],
        decreases a@.len() - i,
    {
        if a[i] != b[i] {
            return false;
        }
        i = i + 1;
    }
    proof {
        assert(a@ =~= b@);
    }
    true
}

/// A fresh copy of `src`.
pub fn copy_bytes(src: &Vec<u8>) -> (r: Vec<u8>)
    ensures
        r@ == src@,
{
    let mut out: Vec<u8> = Vec::new();
    push_all(&mut out, src.as_slice());
    proof {
        assert(out@ =~= src@);
    }
    out
}

/// Appends a copy of `src` to `dst`.
pub fn push_all(dst: &mut Vec<u8>, src: &[u8])
    ensures
        final(dst)@ == old(dst)@ + src@,
{
    let mut k: usize = 0;
    while k < src.len()
        invariant
            k <= src@.len(),
            dst@ == old(dst)@ + src@.subrange(0, k as int),
        decreases src@.len() - k,
    {
        let b = src[k];
        dst.push(b);
        proof {
            assert(old(dst)@ + src@.subrange(0, k as int) + seq![src@[k as int]] =~= old(
                dst,
            )@ + src@.subrange(0, k + 1));
        }
        k = k + 1;
    }
    proof {
        assert(old(dst)@ + src@.subrange(0, src@.len() as int) =~= old(dst)@ + src@);
    }
}

} // verus!
