//! Byte-range copies between owned byte stores, with the spliced result
//! described once as a sequence so that transfer contracts stay short.

use vstd::prelude::*;
use vstd::slice::slice_index_get;

verus! {

/// `dst` with the range starting at `offset` replaced by `src`; everything
/// before and after the replaced window is kept.
pub open spec fn spliced(dst: Seq<u8>, offset: int, src: Seq<u8>) -> Seq<u8>
    recommends
        0 <= offset,
        offset + src.len() <= dst.len(),
{
    dst.take(offset) + src + dst.skip(offset + src.len())
}

/// Splicing keeps the length, and reading back the spliced range yields
/// exactly the bytes written while everything outside it is unchanged:
/// the storage-level guarantee behind a write followed by a read of the
/// same sectors.
pub proof fn lemma_splice_round_trip(dst: Seq<u8>, offset: int, src: Seq<u8>)
    requires
        0 <= offset,
        offset + src.len() <= dst.len(),
    ensures
        spliced(dst, offset, src).len() == dst.len(),
        spliced(dst, offset, src).subrange(offset, offset + src.len()) == src,
        forall|k: int| 0 <= k < offset ==> spliced(dst, offset, src)[k] == dst[k],
        forall|k: int|
            offset + src.len() <= k < dst.len() ==> spliced(dst, offset, src)[k] == dst[k],
{
    assert(spliced(dst, offset, src).subrange(offset, offset + src.len()) =~= src);
}

/// Copies `count` bytes from `src` starting at `src_off` into `dst`
/// starting at `dst_off`.
pub(crate) fn copy_range(dst: &mut Vec<u8>, dst_off: usize, src: &[u8], src_off: usize, count: usize)
    requires
        src_off + count <= src@.len(),
        dst_off + count <= old(dst)@.len(),
    ensures
        final(dst)@ == spliced(old(dst)@, dst_off as int, src@.subrange(
            src_off as int,
            src_off + count,
        )),
{
    let dst_len: usize = dst.len();
    let src_len: usize = src.len();
    let mut i: usize = 0;
    while i < count
        invariant
            i <= count,
            src_off + count <= src_len,
            dst_off + count <= dst_len,
            src@.len() == src_len,
            dst@.len() == dst_len,
            forall|j: int| 0 <= j < i ==> #[trigger] dst@[dst_off + j] == src@[src_off + j],
            forall|j: int|
                (0 <= j < dst_off || dst_off + count <= j < dst@.len()) ==> dst@[j] == old(
                    dst,
                )@[j],
        decreases count - i,
    {
        let b: u8 = *slice_index_get(src, src_off + i);
        dst[dst_off + i] = b;
        i = i + 1;
    }
    proof {
        let target = spliced(old(dst)@, dst_off as int, src@.subrange(
            src_off as int,
            src_off + count,
        ));
        assert forall|k: int| 0 <= k < dst@.len() implies dst@[k] == target[k] by {
            if dst_off <= k < dst_off + count {
                assert(dst@[dst_off + (k - dst_off)] == src@[src_off + (k - dst_off)]);
            }
        }
        assert(dst@ =~= target);
    }
}

/// A vector of `n` zero bytes.
pub(crate) fn zero_vec(n: usize) -> (v: Vec<u8>)
    ensures
        v@ == Seq::new(n as nat, |i: int| 0u8),
{
    let mut v: Vec<u8> = Vec::new();
    let mut i: usize = 0;
    while i < n
        invariant
            i <= n,
            v@.len() == i,
            forall|j: int| 0 <= j < i ==> v@[j] == 0u8,
        decreases n - i,
    {
        v.push(0u8);
        i = i + 1;
    }
    proof {
        assert(v@ =~= Seq::new(n as nat, |i: int| 0u8));
    }
    v
}

} // verus!
