//! Discovery: the probe/attach protocol.  The engine walks every device
//! reachable through the given target, asks the handler once per
//! candidate whether to accept it, and hands an owned controller to the
//! handler exactly once per accepted candidate that connected; rejected
//! candidates are skipped, and a candidate whose connection fails is
//! skipped silently.  Each handler carries a ghost record of the calls
//! it received, and `probe` guarantees that this record grows by
//! exactly the protocol's trace over the reachable devices.

use vstd::prelude::*;

use crate::controller::{
    clone_infos, negotiate, negotiated, Controller, ControllerConfig, ControllerConfigView,
    ControllerMutableOptions, ControllerOptions, ControllerOptionsView, ControllerView,
};
use crate::env::Env;
use crate::transport::{
    str_eq, TransportIdView, TransportIdentifier, TransportType, UnderlyingTransportIdentifier,
};

verus! {

/// Enumeration could not start: no driver for the target's transport
/// kind is loaded.  No controller was attached.
#[derive(Clone, Copy, Debug, PartialEq, Eq, Structural)]
pub struct DiscoveryError;

/// One call the engine made into a discovery handler.
pub ghost enum DiscoveryEvent {
    /// The handler was asked about the candidate at this address and
    /// answered `accepted`, leaving the connection request at `req`.
    Probe { trtype: TransportType, addr: Seq<char>, accepted: bool, req: ControllerOptionsView },
    /// The handler was handed an owned controller for the candidate at
    /// this address, with the options the device negotiated.
    Attach { trtype: TransportType, addr: Seq<char>, ctrlr: ControllerView, opts: ControllerOptionsView },
}

/// Whether the target selects this device: an empty target selects
/// every device, a full one those at its kind and address.
pub open spec fn selects(c: ControllerConfigView, target: Option<TransportIdView>) -> bool {
    match target {
        None => true,
        Some(v) => c.trtype == v.trtype && c.traddr == v.addr,
    }
}

/// The options the device negotiates from a request left by the probe
/// callback: each limit clamped against what the device offers, the
/// keep-alive timeout taken as requested.
pub open spec fn negotiated_opts(
    req: ControllerOptionsView,
    c: ControllerConfigView,
) -> ControllerOptionsView {
    ControllerOptionsView {
        num_io_queues: negotiated(req.num_io_queues, c.max_io_queue_pairs),
        io_queue_size: negotiated(req.io_queue_size, c.max_queue_entries),
        keep_alive_timeout_ms: req.keep_alive_timeout_ms,
    }
}

/// The controller a freshly connected device hands over: its identity
/// and units, the negotiated budgets, and nothing allocated yet.
pub open spec fn connected_view(c: ControllerConfigView, req: ControllerOptionsView) -> ControllerView {
    ControllerView {
        vid: c.vid,
        awun: c.awun,
        queue_budget: negotiated(req.num_io_queues, c.max_io_queue_pairs),
        queue_depth: negotiated(req.io_queue_size, c.max_queue_entries),
        allocated_queues: 0,
        namespaces: c.namespaces,
    }
}

/// The calls one candidate gives rise to.  An unselected device leaves
/// no event.  A selected one is probed exactly once; an attach follows
/// if and only if the probe accepted and the connection succeeds, and
/// then hands over exactly the connected controller and the negotiated
/// options.  A rejected candidate, and an accepted one whose connection
/// fails, is skipped with no further event.
pub open spec fn candidate_trace(
    c: ControllerConfig,
    target: Option<TransportIdView>,
    ev: Seq<DiscoveryEvent>,
) -> bool {
    if !selects(c@, target) {
        ev.len() == 0
    } else {
        ev.len() >= 1 && match ev[0] {
            DiscoveryEvent::Probe { trtype, addr, accepted, req } => {
                &&& trtype == c@.trtype
                &&& addr == c@.traddr
                &&& if accepted && c@.connectable {
                    ev.len() == 2 && ev[1] == (DiscoveryEvent::Attach {
                        trtype: c@.trtype,
                        addr: c@.traddr,
                        ctrlr: connected_view(c@, req),
                        opts: negotiated_opts(req, c@),
                    })
                } else {
                    ev.len() == 1
                }
            },
            DiscoveryEvent::Attach { .. } => false,
        }
    }
}

/// Whether `tr` is exactly the protocol's trace over `devices` in
/// order: a candidate trace per device, concatenated, and nothing else.
pub open spec fn discovery_trace(
    devices: Seq<ControllerConfig>,
    target: Option<TransportIdView>,
    tr: Seq<DiscoveryEvent>,
) -> bool
    decreases devices.len(),
{
    if devices.len() == 0 {
        tr.len() == 0
    } else {
        exists|k: int|
            0 <= k <= tr.len() && candidate_trace(devices[0], target, #[trigger] tr.take(k))
                && discovery_trace(devices.skip(1), target, tr.skip(k))
    }
}

/// A protocol trace over some devices, extended by the trace of one
/// more candidate, is a protocol trace over the devices with that
/// candidate appended.
proof fn lemma_trace_extend(
    devices: Seq<ControllerConfig>,
    c: ControllerConfig,
    target: Option<TransportIdView>,
    tr: Seq<DiscoveryEvent>,
    ev: Seq<DiscoveryEvent>,
)
    requires
        discovery_trace(devices, target, tr),
        candidate_trace(c, target, ev),
    ensures
        discovery_trace(devices.push(c), target, tr + ev),
    decreases devices.len(),
{
    let ds = devices.push(c);
    let te = tr + ev;
    if devices.len() == 0 {
        assert(te =~= ev);
        assert(ds[0] == c);
        assert(ds.skip(1) =~= Seq::<ControllerConfig>::empty());
        assert(te.take(ev.len() as int) =~= ev);
        assert(te.skip(ev.len() as int).len() == 0);
        assert(candidate_trace(ds[0], target, te.take(ev.len() as int)));
        assert(discovery_trace(ds.skip(1), target, te.skip(ev.len() as int)));
        assert(discovery_trace(ds, target, te));
    } else {
        let k = choose|k: int|
            0 <= k <= tr.len() && candidate_trace(devices[0], target, #[trigger] tr.take(k))
                && discovery_trace(devices.skip(1), target, tr.skip(k));
        lemma_trace_extend(devices.skip(1), c, target, tr.skip(k), ev);
        assert(ds.skip(1) =~= devices.skip(1).push(c));
        assert(te.take(k) =~= tr.take(k));
        assert(te.skip(k) =~= tr.skip(k) + ev);
        assert(ds[0] == devices[0]);
        assert(candidate_trace(ds[0], target, te.take(k)));
        assert(discovery_trace(ds.skip(1), target, te.skip(k)));
        assert(discovery_trace(ds, target, te));
    }
}

/// The handler steering discovery.  The transport identifier views it
/// receives are borrowed and valid only within each call; their fields
/// must be copied out if needed later.  `events` is the ghost record of
/// the calls the handler has received, oldest first, and each call
/// appends exactly its own event.
pub trait ProbeCallback {
    /// The calls this handler has received so far.
    spec fn events(&self) -> Seq<DiscoveryEvent>;

    /// Called synchronously once per candidate found.  Returning false
    /// rejects the candidate, and no attach call follows for it;
    /// returning true accepts it, and `opts` may be adjusted in place
    /// to influence the connection about to be made.
    fn probe(
        &mut self,
        transport_id: TransportIdentifier<'_>,
        opts: &mut ControllerMutableOptions,
    ) -> (accepted: bool)
        ensures
            final(self).events() == old(self).events().push(
                DiscoveryEvent::Probe {
                    trtype: transport_id@.trtype,
                    addr: transport_id@.addr,
                    accepted,
                    req: final(opts)@,
                },
            ),
    ;

    /// Called exactly once per accepted candidate that connected,
    /// handing over the owned, well-formed controller and the options
    /// the device actually negotiated.
    fn attach(
        &mut self,
        transport_id: TransportIdentifier<'_>,
        ctrlr: Controller,
        opts: ControllerOptions,
    )
        requires
            ctrlr.wf(),
        ensures
            final(self).events() == old(self).events().push(
                DiscoveryEvent::Attach {
                    trtype: transport_id@.trtype,
                    addr: transport_id@.addr,
                    ctrlr: ctrlr@,
                    opts: opts@,
                },
            ),
    ;
}

/// Runs the two-phase discovery protocol against every reachable device
/// the target selects: all of them for an empty target, those at the
/// target's kind and address otherwise.  Finding no candidate is not an
/// error; the call fails exactly when the target names a transport kind
/// whose driver is not loaded, and then the handler was never called.
/// On success the handler's record has grown by exactly the protocol's
/// trace over the reachable devices: one probe per selected candidate
/// in device order, and an attach if and only if the probe accepted and
/// the connection succeeded, carrying the connected controller and the
/// negotiated options.
pub fn probe<T: UnderlyingTransportIdentifier, P: ProbeCallback>(
    env: &Env,
    transport_id: T,
    handler: &mut P,
) -> (r: Result<(), DiscoveryError>)
    requires
        env.wf(),
    ensures
        r is Ok <==> match transport_id.spec_target() {
            Some(v) => env@.transport_enabled(v.trtype),
            None => true,
        },
        r is Err ==> final(handler).events() == old(handler).events(),
        r is Ok ==> old(handler).events().is_prefix_of(final(handler).events())
            && discovery_trace(
            env@.devices,
            transport_id.spec_target(),
            final(handler).events().skip(old(handler).events().len() as int),
        ),
{
    let ghost tgt = transport_id.spec_target();
    let ghost base = old(handler).events();
    let target: Option<TransportIdentifier> = transport_id.transport_id();
    if let Some(v) = &target {
        if !env.transport_enabled(v.transport_type()) {
            return Err(DiscoveryError);
        }
    }
    let count: usize = env.device_count();
    let mut idx: usize = 0;
    let ghost mut tr: Seq<DiscoveryEvent> = Seq::empty();
    proof {
        assert(handler.events() =~= base + tr);
        assert(env@.devices.take(0).len() == 0);
    }
    while idx < count
        invariant
            idx <= count,
            count == env@.devices.len(),
            env.wf(),
            tgt == transport_id.spec_target(),
            match target {
                Some(v) => tgt == Some(v@),
                None => tgt is None,
            },
            handler.events() == base + tr,
            discovery_trace(env@.devices.take(idx as int), tgt, tr),
        decreases count - idx,
    {
        let cfg: &ControllerConfig = env.device(idx);
        let ghost dev = env@.devices[idx as int];
        proof {
            assert(dev.wf());
        }
        let is_selected: bool = match &target {
            Option::None => true,
            Option::Some(v) => cfg.trtype() == v.transport_type() && str_eq(
                cfg.traddr(),
                v.address(),
            ),
        };
        proof {
            assert(is_selected == selects(dev@, tgt));
        }
        let ghost ev: Seq<DiscoveryEvent>;
        if is_selected {
            let mut mopts = ControllerMutableOptions::defaults();
            let accepted: bool = handler.probe(
                TransportIdentifier::new(cfg.trtype(), cfg.traddr()),
                &mut mopts,
            );
            let ghost pe = DiscoveryEvent::Probe {
                trtype: dev@.trtype,
                addr: dev@.traddr,
                accepted,
                req: mopts@,
            };
            if accepted && cfg.connectable() {
                let budget: u32 = negotiate(mopts.num_io_queues(), cfg.max_io_queue_pairs());
                let depth: u32 = negotiate(mopts.io_queue_size(), cfg.max_queue_entries());
                let opts = ControllerOptions::snapshot(
                    budget,
                    depth,
                    mopts.keep_alive_timeout_ms(),
                );
                proof {
                    assert(1 <= depth);
                    assert(forall|i: int|
                        0 <= i < dev@.namespaces.len() ==> (#[trigger] dev@.namespaces[i]).wf());
                }
                let ctrlr = Controller::connect(
                    cfg.vid(),
                    cfg.awun(),
                    budget,
                    depth,
                    clone_infos(cfg.unit_infos()),
                );
                proof {
                    assert(ctrlr@ == connected_view(dev@, mopts@));
                    assert(opts@ == negotiated_opts(mopts@, dev@));
                }
                handler.attach(
                    TransportIdentifier::new(cfg.trtype(), cfg.traddr()),
                    ctrlr,
                    opts,
                );
                proof {
                    let ae = DiscoveryEvent::Attach {
                        trtype: dev@.trtype,
                        addr: dev@.traddr,
                        ctrlr: connected_view(dev@, mopts@),
                        opts: negotiated_opts(mopts@, dev@),
                    };
                    ev = seq![pe, ae];
                    assert(ev[0] == pe);
                    assert(candidate_trace(dev, tgt, ev));
                }
            } else {
                proof {
                    ev = seq![pe];
                    assert(ev[0] == pe);
                    assert(candidate_trace(dev, tgt, ev));
                }
            }
        } else {
            proof {
                ev = Seq::empty();
                assert(candidate_trace(dev, tgt, ev));
            }
        }
        proof {
            lemma_trace_extend(env@.devices.take(idx as int), dev, tgt, tr, ev);
            assert(env@.devices.take(idx as int).push(dev) =~= env@.devices.take(idx + 1));
            let grown = tr + ev;
            tr = grown;
            assert(handler.events() =~= base + tr);
        }
        idx = idx + 1;
    }
    proof {
        assert(env@.devices.take(count as int) =~= env@.devices);
        assert((base + tr).take(base.len() as int) =~= base);
        assert((base + tr).skip(base.len() as int) =~= tr);
    }
    Ok(())
}

/// A discovery handler verified against the callback contract: it
/// accepts every candidate, leaves the connection request at the
/// engine's defaults, and keeps every controller and options snapshot
/// handed over, in attach order.
pub struct DiscoveryLog {
    controllers: Vec<Controller>,
    options: Vec<ControllerOptions>,
    trace: Ghost<Seq<DiscoveryEvent>>,
}

impl DiscoveryLog {
    /// The controllers kept so far, in attach order.
    pub closed spec fn spec_controllers(&self) -> Seq<Controller> {
        self.controllers@
    }

    /// The options snapshots kept so far, in attach order.
    pub closed spec fn spec_options(&self) -> Seq<ControllerOptions> {
        self.options@
    }

    /// A fresh handler that has seen nothing.
    pub fn new() -> (r: DiscoveryLog)
        ensures
            r.events() == Seq::<DiscoveryEvent>::empty(),
            r.spec_controllers() == Seq::<Controller>::empty(),
            r.spec_options() == Seq::<ControllerOptions>::empty(),
    {
        let r = DiscoveryLog {
            controllers: Vec::new(),
            options: Vec::new(),
            trace: Ghost(Seq::empty()),
        };
        proof {
            assert(r.events() =~= Seq::<DiscoveryEvent>::empty());
            assert(r.spec_controllers() =~= Seq::<Controller>::empty());
            assert(r.spec_options() =~= Seq::<ControllerOptions>::empty());
        }
        r
    }

    /// How many controllers were handed over.
    pub fn controller_count(&self) -> (n: usize)
        ensures
            n == self.spec_controllers().len(),
    {
        self.controllers.len()
    }

    /// Gives the kept controllers and options snapshots to the caller.
    pub fn into_parts(self) -> (r: (Vec<Controller>, Vec<ControllerOptions>))
        ensures
            r.0@ == self.spec_controllers(),
            r.1@ == self.spec_options(),
    {
        let DiscoveryLog { controllers, options, trace: _ } = self;
        (controllers, options)
    }
}

impl ProbeCallback for DiscoveryLog {
    closed spec fn events(&self) -> Seq<DiscoveryEvent> {
        self.trace@
    }

    fn probe(
        &mut self,
        transport_id: TransportIdentifier<'_>,
        opts: &mut ControllerMutableOptions,
    ) -> (accepted: bool) {
        proof {
            self.trace@ = self.trace@.push(
                DiscoveryEvent::Probe {
                    trtype: transport_id@.trtype,
                    addr: transport_id@.addr,
                    accepted: true,
                    req: opts@,
                },
            );
        }
        true
    }

    fn attach(
        &mut self,
        transport_id: TransportIdentifier<'_>,
        ctrlr: Controller,
        opts: ControllerOptions,
    ) {
        proof {
            self.trace@ = self.trace@.push(
                DiscoveryEvent::Attach {
                    trtype: transport_id@.trtype,
                    addr: transport_id@.addr,
                    ctrlr: ctrlr@,
                    opts: opts@,
                },
            );
        }
        self.controllers.push(ctrlr);
        self.options.push(opts);
    }
}

} // verus!
