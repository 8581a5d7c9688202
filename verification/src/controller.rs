//! Controllers: ownership of one discovered device, allocation of its
//! I/O queue pairs within the negotiated budget, and enumeration of its
//! namespaces.  A controller is released by `detach`, which consumes it,
//! so no operation can reach a detached device.

use vstd::prelude::*;

use crate::namespace::{fresh_unit, Namespace, NamespaceInfo};
use crate::queue::{QueuePair, QueuePriority};
use crate::transport::TransportType;

verus! {

/// Queue-pair allocation refused: the controller's budget is exhausted.
#[derive(Clone, Copy, Debug, PartialEq, Eq, Structural)]
pub struct AllocError;

/// The ghost content of a device description.
pub ghost struct ControllerConfigView {
    pub trtype: TransportType,
    pub traddr: Seq<char>,
    pub vid: u16,
    pub awun: u16,
    pub max_io_queue_pairs: u32,
    pub max_queue_entries: u32,
    pub connectable: bool,
    pub namespaces: Seq<NamespaceInfo>,
}

/// The description of one reachable device: where it sits, its identity
/// and limits, whether connecting to it succeeds, and its logical units.
pub struct ControllerConfig {
    trtype: TransportType,
    traddr: String,
    vid: u16,
    awun: u16,
    max_io_queue_pairs: u32,
    max_queue_entries: u32,
    connectable: bool,
    namespaces: Vec<NamespaceInfo>,
}

impl View for ControllerConfig {
    type V = ControllerConfigView;

    closed spec fn view(&self) -> ControllerConfigView {
        ControllerConfigView {
            trtype: self.trtype,
            traddr: self.traddr@,
            vid: self.vid,
            awun: self.awun,
            max_io_queue_pairs: self.max_io_queue_pairs,
            max_queue_entries: self.max_queue_entries,
            connectable: self.connectable,
            namespaces: self.namespaces@,
        }
    }
}

impl ControllerConfig {
    /// Well-formed: queues hold at least one entry, every unit is sane,
    /// and unit identifiers stay countable.
    pub open spec fn wf(&self) -> bool {
        &&& 1 <= self@.max_queue_entries
        &&& self@.namespaces.len() <= u32::MAX
        &&& forall|i: int| 0 <= i < self@.namespaces.len() ==> (#[trigger] self@.namespaces[i]).wf()
    }

    /// A device at `traddr` on `trtype`, with no units yet.
    pub fn new(
        trtype: TransportType,
        traddr: String,
        vid: u16,
        awun: u16,
        max_io_queue_pairs: u32,
        max_queue_entries: u32,
        connectable: bool,
    ) -> (r: ControllerConfig)
        requires
            1 <= max_queue_entries,
        ensures
            r.wf(),
            r@ == (ControllerConfigView {
                trtype,
                traddr: traddr@,
                vid,
                awun,
                max_io_queue_pairs,
                max_queue_entries,
                connectable,
                namespaces: Seq::<NamespaceInfo>::empty(),
            }),
    {
        let r = ControllerConfig {
            trtype,
            traddr,
            vid,
            awun,
            max_io_queue_pairs,
            max_queue_entries,
            connectable,
            namespaces: Vec::new(),
        };
        proof {
            assert(r@.namespaces =~= Seq::<NamespaceInfo>::empty());
        }
        r
    }

    /// The transport kind the device sits on.
    pub fn trtype(&self) -> (r: TransportType)
        ensures
            r == self@.trtype,
    {
        self.trtype
    }

    /// The device's address on its transport.
    pub fn traddr(&self) -> (r: &str)
        ensures
            r@ == self@.traddr,
    {
        self.traddr.as_str()
    }

    /// The PCI vendor identifier the device reports.
    pub fn vid(&self) -> (r: u16)
        ensures
            r == self@.vid,
    {
        self.vid
    }

    /// The atomic write unit the device reports.
    pub fn awun(&self) -> (r: u16)
        ensures
            r == self@.awun,
    {
        self.awun
    }

    /// The most I/O queue pairs the device grants.
    pub fn max_io_queue_pairs(&self) -> (r: u32)
        ensures
            r == self@.max_io_queue_pairs,
    {
        self.max_io_queue_pairs
    }

    /// The most entries one I/O queue can hold.
    pub fn max_queue_entries(&self) -> (r: u32)
        ensures
            r == self@.max_queue_entries,
    {
        self.max_queue_entries
    }

    /// Whether connecting to the device succeeds.
    pub fn connectable(&self) -> (r: bool)
        ensures
            r == self@.connectable,
    {
        self.connectable
    }

    /// The descriptions of the device's logical units.
    pub fn unit_infos(&self) -> (r: &Vec<NamespaceInfo>)
        ensures
            r@ == self@.namespaces,
    {
        &self.namespaces
    }

    /// Adds one logical unit; units get 1-based identifiers in the
    /// order they are added.
    pub fn add_namespace(&mut self, info: NamespaceInfo)
        requires
            old(self).wf(),
            info.wf(),
            old(self)@.namespaces.len() < u32::MAX,
        ensures
            final(self).wf(),
            final(self)@ == (ControllerConfigView {
                namespaces: old(self)@.namespaces.push(info),
                ..old(self)@
            }),
    {
        self.namespaces.push(info);
    }
}

/// Negotiation of one requested limit against what the device offers:
/// zero asks for the device maximum, anything above it is clamped.
pub open spec fn negotiated(requested: u32, device_max: u32) -> u32 {
    if requested == 0 || requested > device_max {
        device_max
    } else {
        requested
    }
}

/// One requested limit negotiated against what the device offers.
pub fn negotiate(requested: u32, device_max: u32) -> (r: u32)
    ensures
        r == negotiated(requested, device_max),
{
    if requested == 0 || requested > device_max {
        device_max
    } else {
        requested
    }
}

/// The ghost content of a controller options snapshot.
pub ghost struct ControllerOptionsView {
    pub num_io_queues: u32,
    pub io_queue_size: u32,
    pub keep_alive_timeout_ms: u32,
}

/// The options actually negotiated for a connected controller;
/// read-only, handed to the attach callback.
#[derive(Clone, Copy, Debug)]
pub struct ControllerOptions {
    num_io_queues: u32,
    io_queue_size: u32,
    keep_alive_timeout_ms: u32,
}

impl View for ControllerOptions {
    type V = ControllerOptionsView;

    closed spec fn view(&self) -> ControllerOptionsView {
        ControllerOptionsView {
            num_io_queues: self.num_io_queues,
            io_queue_size: self.io_queue_size,
            keep_alive_timeout_ms: self.keep_alive_timeout_ms,
        }
    }
}

impl ControllerOptions {
    pub(crate) fn snapshot(
        num_io_queues: u32,
        io_queue_size: u32,
        keep_alive_timeout_ms: u32,
    ) -> (r: ControllerOptions)
        ensures
            r@ == (ControllerOptionsView { num_io_queues, io_queue_size, keep_alive_timeout_ms }),
    {
        ControllerOptions { num_io_queues, io_queue_size, keep_alive_timeout_ms }
    }

    /// How many I/O queue pairs were negotiated.
    pub fn num_io_queues(&self) -> (r: u32)
        ensures
            r == self@.num_io_queues,
    {
        self.num_io_queues
    }

    /// How many entries each I/O queue holds.
    pub fn io_queue_size(&self) -> (r: u32)
        ensures
            r == self@.io_queue_size,
    {
        self.io_queue_size
    }

    /// The negotiated keep-alive timeout in milliseconds.
    pub fn keep_alive_timeout_ms(&self) -> (r: u32)
        ensures
            r == self@.keep_alive_timeout_ms,
    {
        self.keep_alive_timeout_ms
    }
}

/// The connection options of a candidate while it is being probed; the
/// probe callback may adjust them in place, and what the device
/// negotiates from them is what the attach callback later sees.
#[derive(Clone, Copy, Debug)]
pub struct ControllerMutableOptions {
    num_io_queues: u32,
    io_queue_size: u32,
    keep_alive_timeout_ms: u32,
}

/// Default request: one I/O queue pair of the engine's usual size.
pub const DEFAULT_NUM_IO_QUEUES: u32 = 1;

/// Default requested entries per I/O queue.
pub const DEFAULT_IO_QUEUE_SIZE: u32 = 256;

/// Default keep-alive timeout in milliseconds.
pub const DEFAULT_KEEP_ALIVE_TIMEOUT_MS: u32 = 10000;

impl View for ControllerMutableOptions {
    type V = ControllerOptionsView;

    closed spec fn view(&self) -> ControllerOptionsView {
        ControllerOptionsView {
            num_io_queues: self.num_io_queues,
            io_queue_size: self.io_queue_size,
            keep_alive_timeout_ms: self.keep_alive_timeout_ms,
        }
    }
}

impl ControllerMutableOptions {
    pub(crate) fn defaults() -> (r: ControllerMutableOptions)
        ensures
            r@ == (ControllerOptionsView {
                num_io_queues: DEFAULT_NUM_IO_QUEUES,
                io_queue_size: DEFAULT_IO_QUEUE_SIZE,
                keep_alive_timeout_ms: DEFAULT_KEEP_ALIVE_TIMEOUT_MS,
            }),
    {
        ControllerMutableOptions {
            num_io_queues: DEFAULT_NUM_IO_QUEUES,
            io_queue_size: DEFAULT_IO_QUEUE_SIZE,
            keep_alive_timeout_ms: DEFAULT_KEEP_ALIVE_TIMEOUT_MS,
        }
    }

    pub fn num_io_queues(&self) -> (r: u32)
        ensures
            r == self@.num_io_queues,
    {
        self.num_io_queues
    }

    pub fn io_queue_size(&self) -> (r: u32)
        ensures
            r == self@.io_queue_size,
    {
        self.io_queue_size
    }

    pub fn keep_alive_timeout_ms(&self) -> (r: u32)
        ensures
            r == self@.keep_alive_timeout_ms,
    {
        self.keep_alive_timeout_ms
    }

    /// Requests this many I/O queue pairs; zero asks for the device
    /// maximum.
    pub fn set_num_io_queues(&mut self, n: u32)
        ensures
            final(self)@ == (ControllerOptionsView { num_io_queues: n, ..old(self)@ }),
    {
        self.num_io_queues = n;
    }

    /// Requests this many entries per I/O queue; zero asks for the
    /// device maximum.
    pub fn set_io_queue_size(&mut self, n: u32)
        ensures
            final(self)@ == (ControllerOptionsView { io_queue_size: n, ..old(self)@ }),
    {
        self.io_queue_size = n;
    }

    /// Requests this keep-alive timeout in milliseconds.
    pub fn set_keep_alive_timeout_ms(&mut self, n: u32)
        ensures
            final(self)@ == (ControllerOptionsView { keep_alive_timeout_ms: n, ..old(self)@ }),
    {
        self.keep_alive_timeout_ms = n;
    }
}

/// The ghost content of a controller.
pub ghost struct ControllerView {
    pub vid: u16,
    pub awun: u16,
    pub queue_budget: u32,
    pub queue_depth: u32,
    pub allocated_queues: u32,
    pub namespaces: Seq<NamespaceInfo>,
}

/// An owned, connected device.  It exists only inside an attach
/// callback or wherever that callback moved it, and `detach` consumes
/// it, so a released controller is unreachable by construction.
pub struct Controller {
    vid: u16,
    awun: u16,
    queue_budget: u32,
    queue_depth: u32,
    allocated_queues: u32,
    namespaces: Vec<NamespaceInfo>,
}

impl View for Controller {
    type V = ControllerView;

    closed spec fn view(&self) -> ControllerView {
        ControllerView {
            vid: self.vid,
            awun: self.awun,
            queue_budget: self.queue_budget,
            queue_depth: self.queue_depth,
            allocated_queues: self.allocated_queues,
            namespaces: self.namespaces@,
        }
    }
}

impl Controller {
    /// Well-formed: queues hold at least one entry, the allocation count
    /// stays within budget, and every unit is sane and countable.
    pub open spec fn wf(&self) -> bool {
        &&& 1 <= self@.queue_depth
        &&& self@.allocated_queues <= self@.queue_budget
        &&& self@.namespaces.len() <= u32::MAX
        &&& forall|i: int| 0 <= i < self@.namespaces.len() ==> (#[trigger] self@.namespaces[i]).wf()
    }

    /// A freshly connected device with nothing allocated yet.
    pub(crate) fn connect(
        vid: u16,
        awun: u16,
        queue_budget: u32,
        queue_depth: u32,
        namespaces: Vec<NamespaceInfo>,
    ) -> (c: Controller)
        requires
            1 <= queue_depth,
            namespaces@.len() <= u32::MAX,
            forall|i: int| 0 <= i < namespaces@.len() ==> (#[trigger] namespaces@[i]).wf(),
        ensures
            c.wf(),
            c@ == (ControllerView {
                vid,
                awun,
                queue_budget,
                queue_depth,
                allocated_queues: 0,
                namespaces: namespaces@,
            }),
    {
        Controller { vid, awun, queue_budget, queue_depth, allocated_queues: 0, namespaces }
    }

    /// The PCI vendor identifier; zero when the device reports none.
    pub fn pci_vendor_id(&self) -> (r: u16)
        ensures
            r == self@.vid,
    {
        self.vid
    }

    /// The atomic write unit under normal conditions; zero when the
    /// device reports none.
    pub fn atomic_write_unit_normal(&self) -> (r: u16)
        ensures
            r == self@.awun,
    {
        self.awun
    }

    /// How many logical units the device reports.
    pub fn namespace_count(&self) -> (n: u32)
        requires
            self.wf(),
        ensures
            n == self@.namespaces.len(),
    {
        self.namespaces.len() as u32
    }

    /// Requests one more I/O channel at the given priority.  Succeeds
    /// exactly while the negotiated queue-pair budget is not exhausted,
    /// and never partially: a refusal changes nothing.
    pub fn alloc_io_queue_pair<C>(&mut self, qprio: QueuePriority) -> (r: Result<
        QueuePair<C>,
        AllocError,
    >)
        requires
            old(self).wf(),
        ensures
            final(self).wf(),
            r is Ok <==> old(self)@.allocated_queues < old(self)@.queue_budget,
            r is Err ==> final(self)@ == old(self)@,
            r matches Ok(q) ==> q.wf() && q@.pending == Seq::<crate::queue::CommandRecord>::empty()
                && q@.depth == old(self)@.queue_depth && q@.next_cid == 0 && q@.priority == qprio
                && final(self)@ == (ControllerView {
                allocated_queues: (old(self)@.allocated_queues + 1) as u32,
                ..old(self)@
            }),
    {
        if self.allocated_queues >= self.queue_budget {
            return Err(AllocError);
        }
        self.allocated_queues = self.allocated_queues + 1;
        Ok(QueuePair::empty(self.queue_depth, qprio))
    }

    /// The device's logical units, one per reported namespace, with
    /// 1-based contiguous identifiers in device order and zeroed
    /// stores; entry `i` carries identifier `i + 1`.
    pub fn namespaces(&self) -> (r: Vec<Namespace>)
        requires
            self.wf(),
        ensures
            r@.len() == self@.namespaces.len(),
            forall|i: int|
                0 <= i < r@.len() ==> (#[trigger] r@[i]).wf() && r@[i]@ == fresh_unit(
                    (i + 1) as u32,
                    self@.namespaces[i],
                ),
    {
        let count: usize = self.namespaces.len();
        let mut r: Vec<Namespace> = Vec::new();
        let mut i: usize = 0;
        while i < count
            invariant
                i <= count,
                count == self@.namespaces.len(),
                self.wf(),
                r@.len() == i,
                forall|j: int|
                    0 <= j < i ==> (#[trigger] r@[j]).wf() && r@[j]@ == fresh_unit(
                        (j + 1) as u32,
                        self@.namespaces[j],
                    ),
            decreases count - i,
        {
            let info: NamespaceInfo = self.namespaces[i];
            r.push(Namespace::from_info((i as u32) + 1, info));
            i = i + 1;
        }
        r
    }

    /// Releases the device.  Taking the controller by value, this is the
    /// end of the handle: any later use of it is refused by the type
    /// system, not detected at run time.
    pub fn detach(self) {
    }
}

/// A copy of a unit description list, for handing an owned one to a
/// freshly connected controller.
pub(crate) fn clone_infos(src: &Vec<NamespaceInfo>) -> (r: Vec<NamespaceInfo>)
    ensures
        r@ == src@,
{
    let mut r: Vec<NamespaceInfo> = Vec::new();
    let mut i: usize = 0;
    while i < src.len()
        invariant
            i <= src@.len(),
            r@ =~= src@.take(i as int),
        decreases src@.len() - i,
    {
        r.push(src[i]);
        i = i + 1;
    }
    proof {
        assert(r@ =~= src@);
    }
    r
}

} // verus!
