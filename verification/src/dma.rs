//! DMA buffer management: pinned, fixed-size byte regions that commands
//! read from and complete into.  The region owns its bytes, so a view
//! taken from it can never outlive it, and the store is released when the
//! buffer is dropped.

use vstd::prelude::*;

use crate::splice::{copy_range, spliced, zero_vec};

verus! {

/// Whether `n` is a power of two, the alignments the allocator accepts.
pub open spec fn is_power_of_two(n: int) -> bool
    decreases n,
{
    if n <= 0 {
        false
    } else if n == 1 {
        true
    } else {
        n % 2 == 0 && is_power_of_two(n / 2)
    }
}

/// A pinned, DMA-capable memory region of fixed size and alignment.
pub struct DMABuffer {
    bytes: Vec<u8>,
    align: usize,
}

impl View for DMABuffer {
    type V = Seq<u8>;

    closed spec fn view(&self) -> Seq<u8> {
        self.bytes@
    }
}

impl DMABuffer {
    /// The alignment the region was allocated with.
    pub closed spec fn spec_align(&self) -> usize {
        self.align
    }

    /// Well-formed: the recorded alignment is a power of two.
    pub closed spec fn wf(&self) -> bool {
        is_power_of_two(self.align as int)
    }

    /// A region of `size` bytes aligned to `align`; the contents carry no
    /// promise beyond their length.
    pub fn allocate(size: usize, align: usize) -> (r: DMABuffer)
        requires
            is_power_of_two(align as int),
        ensures
            r.wf(),
            r@.len() == size,
            r.spec_align() == align,
    {
        DMABuffer { bytes: zero_vec(size), align }
    }

    /// A region of exactly `size` bytes, all zero, aligned to `align`.
    pub fn allocate_zeroed(size: usize, align: usize) -> (r: DMABuffer)
        requires
            is_power_of_two(align as int),
        ensures
            r.wf(),
            r@ == Seq::new(size as nat, |i: int| 0u8),
            r.spec_align() == align,
    {
        DMABuffer { bytes: zero_vec(size), align }
    }

    /// How many bytes the region holds.
    pub fn len(&self) -> (n: usize)
        ensures
            n == self@.len(),
    {
        self.bytes.len()
    }

    /// A read-only view of the whole region.
    pub fn as_slice(&self) -> (s: &[u8])
        ensures
            s@ == self@,
    {
        self.bytes.as_slice()
    }

    /// Overwrites the bytes starting at `offset` with `src`; the rest of
    /// the region is kept.
    pub fn write_at(&mut self, offset: usize, src: &[u8])
        requires
            offset + src@.len() <= old(self)@.len(),
        ensures
            final(self)@ == spliced(old(self)@, offset as int, src@),
            final(self).spec_align() == old(self).spec_align(),
            final(self).wf() == old(self).wf(),
    {
        let n: usize = src.len();
        copy_range(&mut self.bytes, offset, src, 0, n);
        proof {
            assert(src@.subrange(0, n as int) =~= src@);
        }
    }
}

} // verus!
