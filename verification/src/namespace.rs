//! Namespaces: the logical storage units of a controller, and the read
//! and write commands issued against them through a queue pair.  The
//! device is modelled in memory: an accepted command is carried out on
//! the namespace's sector store at submission, and its completion is
//! delivered later through a poll on the queue pair it was submitted to.

use vstd::prelude::*;
use vstd::arithmetic::mul::{
    lemma_mul_inequality, lemma_mul_is_commutative, lemma_mul_is_distributive_add_other_way,
    lemma_mul_nonnegative, lemma_mul_upper_bound,
};
use vstd::slice::slice_subrange;

use crate::dma::DMABuffer;
use crate::queue::{
    CommandCallback, CommandRecord, IoOpcode, QueuePair, QueuePairView, STATUS_LBA_OUT_OF_RANGE,
    STATUS_SUCCESS,
};
use crate::splice::{copy_range, spliced, zero_vec};

verus! {

/// Check the protection-information reference tag.
pub const IO_FLAG_PRCHK_REF_TAG: u32 = 1u32 << 26;

/// Check the protection-information application tag.
pub const IO_FLAG_PRCHK_APP_TAG: u32 = 1u32 << 27;

/// Check the protection-information guard.
pub const IO_FLAG_PRCHK_GUARD: u32 = 1u32 << 28;

/// Protection information action.
pub const IO_FLAG_PRACT: u32 = 1u32 << 29;

/// Force unit access.
pub const IO_FLAG_FORCE_UNIT_ACCESS: u32 = 1u32 << 30;

/// Limited retry.
pub const IO_FLAG_LIMITED_RETRY: u32 = 1u32 << 31;

/// The in-memory model backs each namespace with an owned byte store, so
/// a unit's byte size is capped to stay addressable.
pub const MAX_NAMESPACE_BYTES: u64 = 0x1000_0000;

/// Why a command was rejected at enqueue time.
#[derive(Clone, Copy, Debug, PartialEq, Eq, Structural)]
pub enum SubmitError {
    /// The buffer cannot hold the requested number of sectors.
    BufferTooSmall,
    /// The queue pair has no room for another command.
    QueueFull,
}

/// A command rejected at enqueue time.  Nothing was submitted, and
/// ownership of the callback reverts fully to the caller: it rides back
/// here, never invoked.
pub struct SubmitRejected<C> {
    /// Why the command was rejected.
    pub kind: SubmitError,
    /// The callback handed to the submission, returned untouched.
    pub callback: C,
}

/// The ghost content of a namespace description.
pub ghost struct NamespaceInfoView {
    pub active: bool,
    pub sector_size: u32,
    pub sector_count: u64,
    pub nawun: u16,
    pub nawupf: u16,
    pub nabsn: u16,
}

/// The static description of one logical unit: geometry, the active
/// flag, and the atomic-write-unit attributes.
#[derive(Clone, Copy, Debug)]
pub struct NamespaceInfo {
    active: bool,
    sector_size: u32,
    sector_count: u64,
    nawun: u16,
    nawupf: u16,
    nabsn: u16,
}

impl View for NamespaceInfo {
    type V = NamespaceInfoView;

    closed spec fn view(&self) -> NamespaceInfoView {
        NamespaceInfoView {
            active: self.active,
            sector_size: self.sector_size,
            sector_count: self.sector_count,
            nawun: self.nawun,
            nawupf: self.nawupf,
            nabsn: self.nabsn,
        }
    }
}

impl NamespaceInfo {
    /// Well-formed: sectors are non-empty and the unit fits the model's
    /// byte cap.
    pub open spec fn wf(&self) -> bool {
        1 <= self@.sector_size && self@.sector_size * self@.sector_count <= MAX_NAMESPACE_BYTES
    }

    /// Describes a unit of `sector_count` sectors of `sector_size`
    /// bytes each; refused exactly when the sector size is zero or the
    /// unit would exceed the byte cap.
    pub fn new(
        active: bool,
        sector_size: u32,
        sector_count: u64,
        nawun: u16,
        nawupf: u16,
        nabsn: u16,
    ) -> (r: Option<NamespaceInfo>)
        ensures
            r is Some <==> (1 <= sector_size && sector_size * sector_count
                <= MAX_NAMESPACE_BYTES),
            r matches Some(info) ==> info.wf() && info@ == (NamespaceInfoView {
                active,
                sector_size,
                sector_count,
                nawun,
                nawupf,
                nabsn,
            }),
    {
        if sector_size == 0 {
            return None;
        }
        proof {
            lemma_mul_upper_bound(
                sector_size as int,
                u32::MAX as int,
                sector_count as int,
                u64::MAX as int,
            );
        }
        let total: u128 = (sector_size as u128) * (sector_count as u128);
        if total > MAX_NAMESPACE_BYTES as u128 {
            return None;
        }
        Some(NamespaceInfo { active, sector_size, sector_count, nawun, nawupf, nabsn })
    }
}

/// The ghost content of a namespace: identity, description, and the
/// sector store.
pub ghost struct NamespaceView {
    pub id: u32,
    pub active: bool,
    pub sector_size: u32,
    pub sector_count: u64,
    pub nawun: u16,
    pub nawupf: u16,
    pub nabsn: u16,
    pub data: Seq<u8>,
}

/// Whether `lba_count` sectors starting at `lba` lie inside the unit.
pub open spec fn lba_in_range(v: NamespaceView, lba: u64, lba_count: u32) -> bool {
    lba + lba_count <= v.sector_count
}

/// The completion status an accepted command will report: success inside
/// the addressable range, a device-reported range error outside it.
pub open spec fn transfer_status(v: NamespaceView, lba: u64, lba_count: u32) -> u16 {
    if lba_in_range(v, lba, lba_count) {
        STATUS_SUCCESS
    } else {
        STATUS_LBA_OUT_OF_RANGE
    }
}

/// Everything but the sector store is the same in `a` and `b`.
pub open spec fn same_unit(a: NamespaceView, b: NamespaceView) -> bool {
    b == (NamespaceView { data: b.data, ..a })
}

/// The content of a freshly enumerated unit: the description's fields
/// under the given identifier, over a zeroed store.
pub open spec fn fresh_unit(id: u32, info: NamespaceInfo) -> NamespaceView {
    NamespaceView {
        id,
        active: info@.active,
        sector_size: info@.sector_size,
        sector_count: info@.sector_count,
        nawun: info@.nawun,
        nawupf: info@.nawupf,
        nabsn: info@.nabsn,
        data: Seq::new((info@.sector_size * info@.sector_count) as nat, |i: int| 0u8),
    }
}

/// One logical unit, its lifetime tied to the controller it came from.
pub struct Namespace {
    id: u32,
    info: NamespaceInfo,
    data: Vec<u8>,
}

impl View for Namespace {
    type V = NamespaceView;

    closed spec fn view(&self) -> NamespaceView {
        NamespaceView {
            id: self.id,
            active: self.info@.active,
            sector_size: self.info@.sector_size,
            sector_count: self.info@.sector_count,
            nawun: self.info@.nawun,
            nawupf: self.info@.nawupf,
            nabsn: self.info@.nabsn,
            data: self.data@,
        }
    }
}

impl Namespace {
    /// Well-formed: a positive 1-based identifier, sane geometry, and a
    /// store of exactly one byte per addressable byte of the unit.
    pub open spec fn wf(&self) -> bool {
        &&& 1 <= self@.id
        &&& 1 <= self@.sector_size
        &&& self@.sector_size * self@.sector_count <= MAX_NAMESPACE_BYTES
        &&& self@.data.len() == self@.sector_size * self@.sector_count
    }

    /// A unit with identifier `id` described by `info`, with a zeroed
    /// store.
    pub(crate) fn from_info(id: u32, info: NamespaceInfo) -> (ns: Namespace)
        requires
            info.wf(),
            1 <= id,
        ensures
            ns.wf(),
            ns@ == fresh_unit(id, info),
    {
        let total64: u64 = (info.sector_size as u64) * info.sector_count;
        let data = zero_vec(total64 as usize);
        Namespace { id, info, data }
    }

    /// The 1-based identifier of this unit on its controller.
    pub fn id(&self) -> (r: u32)
        ensures
            r == self@.id,
    {
        self.id
    }

    /// Whether the unit is active; a namespace may be valid yet
    /// inactive, which callers must check before use.
    pub fn is_active(&self) -> (r: bool)
        ensures
            r == self@.active,
    {
        self.info.active
    }

    /// The unit's capacity in bytes.
    pub fn size(&self) -> (r: u64)
        requires
            self.wf(),
        ensures
            r == self@.sector_size * self@.sector_count,
    {
        (self.info.sector_size as u64) * self.info.sector_count
    }

    /// The size of one sector in bytes.
    pub fn sector_size(&self) -> (r: u32)
        ensures
            r == self@.sector_size,
    {
        self.info.sector_size
    }

    /// The atomic write unit under normal conditions.
    pub fn atomic_write_unit_normal(&self) -> (r: u16)
        ensures
            r == self@.nawun,
    {
        self.info.nawun
    }

    /// The atomic write unit under a power failure.
    pub fn atomic_write_unit_power_failure(&self) -> (r: u16)
        ensures
            r == self@.nawupf,
    {
        self.info.nawupf
    }

    /// The atomic boundary size under normal conditions.
    pub fn atomic_boundary_size_normal(&self) -> (r: u16)
        ensures
            r == self@.nabsn,
    {
        self.info.nabsn
    }

    /// Submits a write of `lba_count` sectors taken from the start of
    /// `data`, to be completed through a later poll of `qpair`.  Rejected
    /// exactly when the buffer is smaller than the transfer or the queue
    /// pair has no room; a rejection changes nothing, hands the callback
    /// back, and the callback will never fire.  An accepted command is
    /// carried out on the sector store when in range, enters the arena
    /// under the next free id with `flags` passed through unmodified,
    /// and reports its status only through the completion record.
    pub fn write<C: CommandCallback>(
        &mut self,
        qpair: &mut QueuePair<C>,
        data: &DMABuffer,
        lba: u64,
        lba_count: u32,
        callback: C,
        flags: u32,
    ) -> (r: Result<(), SubmitRejected<C>>)
        requires
            old(self).wf(),
            old(qpair).wf(),
        ensures
            final(self).wf(),
            final(qpair).wf(),
            same_unit(old(self)@, final(self)@),
            r is Err <==> (data@.len() < lba_count * old(self)@.sector_size || !old(
                qpair,
            )@.has_room()),
            r matches Err(e) ==> e.callback == callback && e.kind == (
            if data@.len() < lba_count * old(self)@.sector_size {
                SubmitError::BufferTooSmall
            } else {
                SubmitError::QueueFull
            }),
            r is Err ==> final(self)@ == old(self)@ && final(qpair)@ == old(qpair)@,
            r is Ok ==> final(qpair)@ == (QueuePairView {
                pending: old(qpair)@.pending.push(
                    CommandRecord {
                        cid: old(qpair)@.next_cid,
                        nsid: old(self)@.id,
                        op: IoOpcode::Write,
                        flags,
                        status: transfer_status(old(self)@, lba, lba_count),
                    },
                ),
                next_cid: (old(qpair)@.next_cid + 1) as u64,
                ..old(qpair)@
            }),
            r is Ok && lba_in_range(old(self)@, lba, lba_count) ==> final(self)@.data == spliced(
                old(self)@.data,
                lba * old(self)@.sector_size,
                data@.take(lba_count * old(self)@.sector_size),
            ),
            r is Ok && !lba_in_range(old(self)@, lba, lba_count) ==> final(self)@.data == old(
                self,
            )@.data,
    {
        let ss: u32 = self.info.sector_size;
        proof {
            lemma_mul_upper_bound(lba_count as int, u32::MAX as int, ss as int, u32::MAX as int);
        }
        let need: u64 = (lba_count as u64) * (ss as u64);
        if (data.len() as u64) < need {
            return Err(SubmitRejected { kind: SubmitError::BufferTooSmall, callback });
        }
        if !qpair.has_room() {
            return Err(SubmitRejected { kind: SubmitError::QueueFull, callback });
        }
        let in_range: bool = lba_count as u64 <= self.info.sector_count && lba
            <= self.info.sector_count - lba_count as u64;
        if in_range {
            proof {
                lemma_transfer_window(
                    self@.sector_size as int,
                    self@.sector_count as int,
                    lba as int,
                    lba_count as int,
                );
            }
            let off: u64 = lba * (ss as u64);
            copy_range(&mut self.data, off as usize, data.as_slice(), 0, need as usize);
            qpair.enqueue(self.id, IoOpcode::Write, flags, STATUS_SUCCESS, callback);
            proof {
                assert(data@.subrange(0, need as int) =~= data@.take(
                    lba_count * old(self)@.sector_size,
                ));
            }
        } else {
            qpair.enqueue(self.id, IoOpcode::Write, flags, STATUS_LBA_OUT_OF_RANGE, callback);
        }
        Ok(())
    }

    /// Submits a read of `lba_count` sectors into the start of `data`,
    /// completed like a write; the two operations are symmetric at
    /// submission time, and a rejection hands the callback back, never
    /// to be invoked.  When in range, the sectors are carried into the
    /// buffer; the namespace itself never changes.
    pub fn read<C: CommandCallback>(
        &self,
        qpair: &mut QueuePair<C>,
        data: &mut DMABuffer,
        lba: u64,
        lba_count: u32,
        callback: C,
        flags: u32,
    ) -> (r: Result<(), SubmitRejected<C>>)
        requires
            self.wf(),
            old(qpair).wf(),
        ensures
            final(qpair).wf(),
            final(data).spec_align() == old(data).spec_align(),
            final(data).wf() == old(data).wf(),
            final(data)@.len() == old(data)@.len(),
            r is Err <==> (old(data)@.len() < lba_count * self@.sector_size || !old(
                qpair,
            )@.has_room()),
            r matches Err(e) ==> e.callback == callback && e.kind == (
            if old(data)@.len() < lba_count * self@.sector_size {
                SubmitError::BufferTooSmall
            } else {
                SubmitError::QueueFull
            }),
            r is Err ==> final(data)@ == old(data)@ && final(qpair)@ == old(qpair)@,
            r is Ok ==> final(qpair)@ == (QueuePairView {
                pending: old(qpair)@.pending.push(
                    CommandRecord {
                        cid: old(qpair)@.next_cid,
                        nsid: self@.id,
                        op: IoOpcode::Read,
                        flags,
                        status: transfer_status(self@, lba, lba_count),
                    },
                ),
                next_cid: (old(qpair)@.next_cid + 1) as u64,
                ..old(qpair)@
            }),
            r is Ok && lba_in_range(self@, lba, lba_count) ==> final(data)@ == spliced(
                old(data)@,
                0,
                self@.data.subrange(
                    lba * self@.sector_size,
                    lba * self@.sector_size + lba_count * self@.sector_size,
                ),
            ),
            r is Ok && !lba_in_range(self@, lba, lba_count) ==> final(data)@ == old(data)@,
    {
        let ss: u32 = self.info.sector_size;
        proof {
            lemma_mul_upper_bound(lba_count as int, u32::MAX as int, ss as int, u32::MAX as int);
        }
        let need: u64 = (lba_count as u64) * (ss as u64);
        if (data.len() as u64) < need {
            return Err(SubmitRejected { kind: SubmitError::BufferTooSmall, callback });
        }
        if !qpair.has_room() {
            return Err(SubmitRejected { kind: SubmitError::QueueFull, callback });
        }
        let in_range: bool = lba_count as u64 <= self.info.sector_count && lba
            <= self.info.sector_count - lba_count as u64;
        if in_range {
            proof {
                lemma_transfer_window(
                    self@.sector_size as int,
                    self@.sector_count as int,
                    lba as int,
                    lba_count as int,
                );
            }
            let off: u64 = lba * (ss as u64);
            let src: &[u8] = slice_subrange(
                self.data.as_slice(),
                off as usize,
                (off + need) as usize,
            );
            data.write_at(0, src);
            qpair.enqueue(self.id, IoOpcode::Read, flags, STATUS_SUCCESS, callback);
        } else {
            qpair.enqueue(self.id, IoOpcode::Read, flags, STATUS_LBA_OUT_OF_RANGE, callback);
        }
        Ok(())
    }
}

/// Inside the addressable range, the transfer window in bytes lies
/// within the unit's byte size.
proof fn lemma_transfer_window(ss: int, sc: int, lba: int, count: int)
    requires
        1 <= ss,
        0 <= lba,
        0 <= count,
        lba + count <= sc,
    ensures
        0 <= lba * ss,
        lba * ss + count * ss <= ss * sc,
{
    lemma_mul_nonnegative(lba, ss);
    lemma_mul_inequality(lba + count, sc, ss);
    lemma_mul_is_distributive_add_other_way(ss, lba, count);
    lemma_mul_is_commutative(sc, ss);
}

/// A write of `lba_count` sectors at `lba` followed by a read of the
/// same range hands back exactly the bytes written: the store after the
/// write holds `w` in the range's byte window, and that window is what
/// a read of the range carries into its buffer.
pub proof fn lemma_write_then_read_round_trip(v: NamespaceView, lba: u64, lba_count: u32, w: Seq<u8>)
    requires
        1 <= v.sector_size,
        v.sector_size * v.sector_count <= MAX_NAMESPACE_BYTES,
        v.data.len() == v.sector_size * v.sector_count,
        lba_in_range(v, lba, lba_count),
        w.len() == lba_count * v.sector_size,
    ensures
        spliced(v.data, lba * v.sector_size, w).len() == v.data.len(),
        spliced(v.data, lba * v.sector_size, w).subrange(
            lba * v.sector_size,
            lba * v.sector_size + lba_count * v.sector_size,
        ) == w,
{
    lemma_transfer_window(v.sector_size as int, v.sector_count as int, lba as int, lba_count as int);
    crate::splice::lemma_splice_round_trip(v.data, lba * v.sector_size, w);
}

} // verus!
