//! Queue pairs: the per-worker I/O channel.  Submissions enter an
//! in-flight command arena keyed by a generation command id; polling the
//! pair is the only point where completions are delivered, each one by a
//! single synchronous call of the callback bound at submission.

use vstd::prelude::*;

verus! {

/// Completion status of a command that the device carried out.
pub const STATUS_SUCCESS: u16 = 0;

/// Completion status of a command whose range exceeded the namespace.
pub const STATUS_LBA_OUT_OF_RANGE: u16 = 0x80;

/// Scheduling priority of an I/O queue pair.
#[derive(Clone, Copy, Debug, PartialEq, Eq, Structural)]
pub enum QueuePriority {
    Urgent,
    High,
    Medium,
    Low,
}

/// The direction of a namespace command.
#[derive(Clone, Copy, Debug, PartialEq, Eq, Structural)]
pub enum IoOpcode {
    Write,
    Read,
}

/// One completion record, valid data for the duration of the callback
/// call that receives it.
#[derive(Clone, Copy, Debug)]
pub struct CompletionQueueEntry {
    cid: u64,
    status: u16,
}

impl CompletionQueueEntry {
    /// The id of the command this record completes.
    pub closed spec fn spec_cid(&self) -> u64 {
        self.cid
    }

    /// The device-reported status; this layer does not interpret it.
    pub closed spec fn spec_status(&self) -> u16 {
        self.status
    }

    pub fn cid(&self) -> (c: u64)
        ensures
            c == self.spec_cid(),
    {
        self.cid
    }

    pub fn status(&self) -> (st: u16)
        ensures
            st == self.spec_status(),
    {
        self.status
    }

    /// Whether the command completed with an error status.
    pub fn is_error(&self) -> (e: bool)
        ensures
            e == (self.spec_status() != STATUS_SUCCESS),
    {
        self.status != STATUS_SUCCESS
    }
}

/// The caller-supplied handler bound to a submitted command.  It must
/// stay where it was moved to until its notification fires; the arena
/// owns it from submission to completion and releases it right after the
/// single call.
pub trait CommandCallback {
    /// Receives the command's completion record, exactly once, from a
    /// poll on the queue pair the command was submitted to.
    fn callback(&mut self, cpl: CompletionQueueEntry);
}

/// The ghost record of one in-flight command.
pub ghost struct CommandRecord {
    pub cid: u64,
    pub nsid: u32,
    pub op: IoOpcode,
    pub flags: u32,
    pub status: u16,
}

/// One in-flight command: its record and the callback it owns.
struct PendingCommand<C> {
    cid: u64,
    nsid: u32,
    op: IoOpcode,
    flags: u32,
    status: u16,
    callback: C,
}

impl<C> PendingCommand<C> {
    spec fn record(&self) -> CommandRecord {
        CommandRecord {
            cid: self.cid,
            nsid: self.nsid,
            op: self.op,
            flags: self.flags,
            status: self.status,
        }
    }
}

/// The ghost content of a queue pair.
pub ghost struct QueuePairView {
    /// In-flight commands, oldest first.
    pub pending: Seq<CommandRecord>,
    /// How many commands may be in flight at once.
    pub depth: u32,
    /// The id the next accepted command will get.
    pub next_cid: u64,
    /// The scheduling priority the pair was allocated with.
    pub priority: QueuePriority,
}

/// Ids of the given records grow strictly from older to newer.
pub open spec fn cids_increasing(pending: Seq<CommandRecord>) -> bool {
    forall|i: int, j: int|
        0 <= i < j < pending.len() ==> (#[trigger] pending[i]).cid < (#[trigger] pending[j]).cid
}

impl QueuePairView {
    /// Well-formed: within depth, and ids strictly increasing and below
    /// the next free one, so no two in-flight commands share an id.
    pub open spec fn wf(self) -> bool {
        &&& self.pending.len() <= self.depth
        &&& cids_increasing(self.pending)
        &&& forall|i: int|
            0 <= i < self.pending.len() ==> (#[trigger] self.pending[i]).cid < self.next_cid
    }

    /// Whether one more command can enter: a free slot and a fresh id.
    pub open spec fn has_room(self) -> bool {
        self.pending.len() < self.depth && self.next_cid < u64::MAX
    }
}

/// An I/O channel on a controller, owned by the caller that allocated
/// it; submit and poll through one owner at a time.  Its native
/// resources are released when it is dropped, which the caller must not
/// do while commands are still in flight.
pub struct QueuePair<C> {
    pending: Vec<PendingCommand<C>>,
    depth: u32,
    next_cid: u64,
    priority: QueuePriority,
}

impl<C> View for QueuePair<C> {
    type V = QueuePairView;

    closed spec fn view(&self) -> QueuePairView {
        QueuePairView {
            pending: self.pending@.map_values(|pc: PendingCommand<C>| pc.record()),
            depth: self.depth,
            next_cid: self.next_cid,
            priority: self.priority,
        }
    }
}

impl<C> QueuePair<C> {
    /// Well-formed; every pair the controller hands out is, and every
    /// operation keeps it so.
    pub open spec fn wf(&self) -> bool {
        self@.wf()
    }

    /// A fresh, empty pair.
    pub(crate) fn empty(depth: u32, priority: QueuePriority) -> (q: QueuePair<C>)
        ensures
            q.wf(),
            q@.pending == Seq::<CommandRecord>::empty(),
            q@.depth == depth,
            q@.next_cid == 0,
            q@.priority == priority,
    {
        let q = QueuePair { pending: Vec::new(), depth, next_cid: 0, priority };
        proof {
            assert(q@.pending =~= Seq::<CommandRecord>::empty());
        }
        q
    }

    /// The priority the pair was allocated with.
    pub fn priority(&self) -> (p: QueuePriority)
        ensures
            p == self@.priority,
    {
        self.priority
    }

    /// How many commands are in flight.
    pub fn pending_count(&self) -> (n: usize)
        ensures
            n == self@.pending.len(),
    {
        self.pending.len()
    }

    /// How many commands may be in flight at once.
    pub fn depth(&self) -> (d: u32)
        ensures
            d == self@.depth,
    {
        self.depth
    }

    /// Whether a submission would be accepted right now.
    pub fn has_room(&self) -> (b: bool)
        ensures
            b == self@.has_room(),
    {
        (self.pending.len() as u64) < (self.depth as u64) && self.next_cid < u64::MAX
    }

    /// Admits one command to the arena under the next free id.
    pub(crate) fn enqueue(&mut self, nsid: u32, op: IoOpcode, flags: u32, status: u16, callback: C)
        requires
            old(self).wf(),
            old(self)@.has_room(),
        ensures
            final(self).wf(),
            final(self)@.pending == old(self)@.pending.push(
                CommandRecord { cid: old(self)@.next_cid, nsid, op, flags, status },
            ),
            final(self)@.next_cid == old(self)@.next_cid + 1,
            final(self)@.depth == old(self)@.depth,
            final(self)@.priority == old(self)@.priority,
    {
        let cid: u64 = self.next_cid;
        self.pending.push(PendingCommand { cid, nsid, op, flags, status, callback });
        self.next_cid = self.next_cid + 1;
        proof {
            assert(self@.pending =~= old(self)@.pending.push(
                CommandRecord { cid, nsid, op, flags, status },
            ));
        }
    }
}

/// How many completions a poll bounded by `max` delivers out of
/// `pending` ready ones; zero means no bound.
pub open spec fn poll_count(pending: int, max: int) -> int {
    if max == 0 || max > pending {
        pending
    } else {
        max
    }
}

impl<C: CommandCallback> QueuePair<C> {
    /// Polls the channel for at most `max` completions (0: no limit),
    /// invoking the bound callback of each delivered one, oldest first,
    /// and removing it from the arena; returns how many were delivered.
    /// Polling with nothing pending is a no-op returning 0.  The
    /// in-memory model always has every in-flight command ready and
    /// delivers in submission order; the interface promises callers only
    /// that completions arrive through polls, in the order polling
    /// discovers them, so nothing should be built on that order.
    pub fn process_completions(&mut self, max: u32) -> (n: u32)
        requires
            old(self).wf(),
        ensures
            final(self).wf(),
            n == poll_count(old(self)@.pending.len() as int, max as int),
            final(self)@.pending == old(self)@.pending.skip(n as int),
            final(self)@.depth == old(self)@.depth,
            final(self)@.next_cid == old(self)@.next_cid,
            final(self)@.priority == old(self)@.priority,
    {
        let mut n: u32 = 0;
        while self.pending.len() > 0 && (max == 0 || n < max)
            invariant
                old(self)@.wf(),
                self@.wf(),
                n <= old(self)@.pending.len(),
                max != 0 ==> n <= max,
                self@.pending == old(self)@.pending.skip(n as int),
                self@.depth == old(self)@.depth,
                self@.next_cid == old(self)@.next_cid,
                self@.priority == old(self)@.priority,
            decreases self@.pending.len(),
        {
            let ghost prev = self.pending@;
            let ghost prev_rec = self@.pending;
            let mut pc = self.pending.remove(0);
            proof {
                assert forall|k: int| 0 <= k < self@.pending.len() implies self@.pending[k]
                    == prev_rec[k + 1] by {
                    assert(self.pending@[k] == prev[k + 1]);
                }
                assert(self@.pending =~= old(self)@.pending.skip(n + 1));
            }
            let entry = CompletionQueueEntry { cid: pc.cid, status: pc.status };
            pc.callback.callback(entry);
            n = n + 1;
        }
        n
    }
}

/// In a well-formed arena ids grow strictly, so the records of two
/// successive polls never share a command id: a completion callback
/// fires at most once for any submitted command.
pub proof fn lemma_polls_deliver_disjoint(pending: Seq<CommandRecord>, n1: int, n2: int)
    requires
        cids_increasing(pending),
        0 <= n1,
        0 <= n2,
        n1 + n2 <= pending.len(),
    ensures
        forall|i: int, j: int|
            0 <= i < n1 && 0 <= j < n2 ==> (#[trigger] pending.take(n1)[i]).cid != (
            #[trigger] pending.skip(n1).take(n2)[j]).cid,
{
    assert forall|i: int, j: int| 0 <= i < n1 && 0 <= j < n2 implies (
    #[trigger] pending.take(n1)[i]).cid != (#[trigger] pending.skip(n1).take(n2)[j]).cid by {
        assert(pending.take(n1)[i] == pending[i]);
        assert(pending.skip(n1).take(n2)[j] == pending[n1 + j]);
        assert(pending[i].cid < pending[n1 + j].cid);
    }
}

/// Two accepted submissions on an idle pair are together delivered by
/// one unbounded poll — the bound callback of each is called exactly
/// once in total — and every later poll delivers nothing.
pub proof fn lemma_pair_of_submissions_completes_once(
    q0: Seq<CommandRecord>,
    r1: CommandRecord,
    r2: CommandRecord,
)
    requires
        q0.len() == 0,
    ensures
        poll_count(q0.push(r1).push(r2).len() as int, 0) == 2,
        q0.push(r1).push(r2).take(2) == seq![r1, r2],
        q0.push(r1).push(r2).skip(2).len() == 0,
        poll_count(q0.push(r1).push(r2).skip(2).len() as int, 0) == 0,
{
    assert(q0.push(r1).push(r2).take(2) =~= seq![r1, r2]);
}

/// A command id absent from the pending records — as after a failed
/// submission, which leaves the queue exactly as it was — is never among
/// the records a poll delivers.
pub proof fn lemma_absent_command_never_delivered(pending: Seq<CommandRecord>, n: int, cid: u64)
    requires
        0 <= n <= pending.len(),
        forall|i: int| 0 <= i < pending.len() ==> (#[trigger] pending[i]).cid != cid,
    ensures
        forall|i: int| 0 <= i < n ==> (#[trigger] pending.take(n)[i]).cid != cid,
{
    assert forall|i: int| 0 <= i < n implies (#[trigger] pending.take(n)[i]).cid != cid by {
        assert(pending.take(n)[i] == pending[i]);
    }
}

} // verus!
