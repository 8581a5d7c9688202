use std::cell::Cell;
use std::rc::Rc;

use nvme::controller::{
    Controller, ControllerConfig, ControllerMutableOptions, ControllerOptions,
};
use nvme::discovery::{probe, DiscoveryError, DiscoveryEvent, ProbeCallback};
use nvme::dma::DMABuffer;
use nvme::env::{init_env, Env, EnvOpts};
use nvme::discovery::DiscoveryLog;
use nvme::namespace::{NamespaceInfo, SubmitError, MAX_NAMESPACE_BYTES};
use nvme::queue::{
    CommandCallback, CompletionQueueEntry, QueuePriority, STATUS_LBA_OUT_OF_RANGE, STATUS_SUCCESS,
};
use nvme::transport::{OwnedTransportIdentifier, TransportIdentifier, TransportType};

#[derive(Default)]
struct Stats {
    count: Cell<usize>,
    last_status: Cell<u16>,
    last_cid: Cell<u64>,
    errors: Cell<usize>,
}

struct CountingCallback(Rc<Stats>);

impl CommandCallback for CountingCallback {
    fn callback(&mut self, cpl: CompletionQueueEntry) {
        self.0.count.set(self.0.count.get() + 1);
        self.0.last_status.set(cpl.status());
        self.0.last_cid.set(cpl.cid());
        if cpl.is_error() {
            self.0.errors.set(self.0.errors.get() + 1);
        }
    }
}

struct Collector {
    ctrlr: Option<Controller>,
    opts: Option<ControllerOptions>,
    probe_calls: usize,
    attach_calls: usize,
    accept: bool,
    request_num_io_queues: Option<u32>,
    request_io_queue_size: Option<u32>,
}

impl Collector {
    fn new(accept: bool) -> Collector {
        Collector {
            ctrlr: None,
            opts: None,
            probe_calls: 0,
            attach_calls: 0,
            accept,
            request_num_io_queues: None,
            request_io_queue_size: None,
        }
    }
}

impl ProbeCallback for Collector {
    // The ghost record of received calls; it is never evaluated at run
    // time, so an unverified handler gives it no real body.
    fn events(&self) -> vstd::prelude::Seq<DiscoveryEvent> {
        unreachable!()
    }

    fn probe(
        &mut self,
        _transport_id: TransportIdentifier<'_>,
        opts: &mut ControllerMutableOptions,
    ) -> bool {
        self.probe_calls += 1;
        if let Some(n) = self.request_num_io_queues {
            opts.set_num_io_queues(n);
        }
        if let Some(n) = self.request_io_queue_size {
            opts.set_io_queue_size(n);
        }
        self.accept
    }

    fn attach(
        &mut self,
        _transport_id: TransportIdentifier<'_>,
        ctrlr: Controller,
        opts: ControllerOptions,
    ) {
        self.attach_calls += 1;
        self.ctrlr = Some(ctrlr);
        self.opts = Some(opts);
    }
}

fn one_device_env(max_io_queue_pairs: u32, max_queue_entries: u32, connectable: bool) -> Env {
    let mut cfg = ControllerConfig::new(
        TransportType::Pcie,
        String::from("0000:01:00.0"),
        0x1B96,
        8,
        max_io_queue_pairs,
        max_queue_entries,
        connectable,
    );
    cfg.add_namespace(NamespaceInfo::new(true, 512, 64, 4, 2, 1).unwrap());
    let mut opts = EnvOpts::new();
    opts.add_device(cfg);
    init_env(opts)
}

#[test]
fn discovery_attaches_accepted_candidate() {
    let env = one_device_env(4, 128, true);
    let mut h = Collector::new(true);
    probe(&env, (), &mut h).unwrap();
    assert_eq!(h.probe_calls, 1);
    assert_eq!(h.attach_calls, 1);
    let ctrlr = h.ctrlr.unwrap();
    assert_eq!(ctrlr.pci_vendor_id(), 0x1B96);
    assert_eq!(ctrlr.atomic_write_unit_normal(), 8);
    ctrlr.detach();
}

#[test]
fn discovery_never_attaches_rejected_candidate() {
    let env = one_device_env(4, 128, true);
    let mut h = Collector::new(false);
    probe(&env, (), &mut h).unwrap();
    assert_eq!(h.probe_calls, 1);
    assert_eq!(h.attach_calls, 0);
    assert!(h.ctrlr.is_none());
}

#[test]
fn discovery_silently_skips_connection_failure() {
    let env = one_device_env(4, 128, false);
    let mut h = Collector::new(true);
    probe(&env, (), &mut h).unwrap();
    assert_eq!(h.probe_calls, 1);
    assert_eq!(h.attach_calls, 0);
}

#[test]
fn discovery_with_no_candidates_succeeds() {
    let env = init_env(EnvOpts::new());
    let mut h = Collector::new(true);
    probe(&env, (), &mut h).unwrap();
    assert_eq!(h.probe_calls, 0);
    assert_eq!(h.attach_calls, 0);
}

#[test]
fn discovery_filters_by_target_address() {
    let mut opts = EnvOpts::new();
    for addr in ["0000:01:00.0", "0000:02:00.0"] {
        let mut cfg = ControllerConfig::new(
            TransportType::Pcie,
            String::from(addr),
            1,
            0,
            1,
            16,
            true,
        );
        cfg.add_namespace(NamespaceInfo::new(true, 512, 8, 0, 0, 0).unwrap());
        opts.add_device(cfg);
    }
    let env = init_env(opts);
    let tid = OwnedTransportIdentifier::from_str("trtype:PCIe traddr:0000:02:00.0").unwrap();
    let mut h = Collector::new(true);
    probe(&env, &tid, &mut h).unwrap();
    assert_eq!(h.probe_calls, 1);
    assert_eq!(h.attach_calls, 1);
}

#[test]
fn discovery_fails_without_transport_driver() {
    let mut opts = EnvOpts::new();
    opts.set_transport_enabled(TransportType::Tcp, false);
    let env = init_env(opts);
    let tid = OwnedTransportIdentifier::from_str("trtype:TCP traddr:10.0.0.1").unwrap();
    let mut h = Collector::new(true);
    assert_eq!(probe(&env, &tid, &mut h).unwrap_err(), DiscoveryError);
    assert_eq!(h.probe_calls, 0);
}

#[test]
fn options_are_negotiated_against_device_limits() {
    let env = one_device_env(4, 128, true);
    let mut h = Collector::new(true);
    h.request_num_io_queues = Some(0);
    h.request_io_queue_size = Some(1000);
    probe(&env, (), &mut h).unwrap();
    let negotiated = h.opts.unwrap();
    assert_eq!(negotiated.num_io_queues(), 4);
    assert_eq!(negotiated.io_queue_size(), 128);
}

#[test]
fn namespaces_are_enumerated_in_order() {
    let mut cfg = ControllerConfig::new(
        TransportType::Pcie,
        String::from("0000:03:00.0"),
        7,
        0,
        1,
        32,
        true,
    );
    cfg.add_namespace(NamespaceInfo::new(true, 512, 64, 4, 2, 1).unwrap());
    cfg.add_namespace(NamespaceInfo::new(false, 4096, 16, 0, 0, 0).unwrap());
    cfg.add_namespace(NamespaceInfo::new(true, 512, 8, 0, 0, 0).unwrap());
    let mut opts = EnvOpts::new();
    opts.add_device(cfg);
    let env = init_env(opts);
    let mut h = Collector::new(true);
    probe(&env, (), &mut h).unwrap();
    let ctrlr = h.ctrlr.unwrap();
    let namespaces = ctrlr.namespaces();
    assert_eq!(namespaces.len(), ctrlr.namespace_count() as usize);
    assert_eq!(namespaces.len(), 3);
    for (i, ns) in namespaces.iter().enumerate() {
        assert_eq!(ns.id() as usize, i + 1);
    }
    assert!(namespaces[0].is_active());
    assert!(!namespaces[1].is_active());
    assert_eq!(namespaces[0].sector_size(), 512);
    assert_eq!(namespaces[0].size(), 512 * 64);
    assert_eq!(namespaces[1].sector_size(), 4096);
    assert_eq!(namespaces[0].atomic_write_unit_normal(), 4);
    assert_eq!(namespaces[0].atomic_write_unit_power_failure(), 2);
    assert_eq!(namespaces[0].atomic_boundary_size_normal(), 1);
    ctrlr.detach();
}

#[test]
fn queue_pair_budget_is_enforced() {
    let env = one_device_env(2, 16, true);
    let mut h = Collector::new(true);
    h.request_num_io_queues = Some(2);
    probe(&env, (), &mut h).unwrap();
    let mut ctrlr = h.ctrlr.unwrap();
    let q1 = ctrlr
        .alloc_io_queue_pair::<CountingCallback>(QueuePriority::Urgent)
        .unwrap();
    assert_eq!(q1.priority(), QueuePriority::Urgent);
    assert_eq!(q1.depth(), 16);
    let _q2 = ctrlr
        .alloc_io_queue_pair::<CountingCallback>(QueuePriority::Low)
        .unwrap();
    assert!(ctrlr
        .alloc_io_queue_pair::<CountingCallback>(QueuePriority::High)
        .is_err());
    ctrlr.detach();
}

#[test]
fn write_then_read_completes_each_callback_once() {
    let env = one_device_env(1, 128, true);
    let mut h = Collector::new(true);
    probe(&env, (), &mut h).unwrap();
    let mut ctrlr = h.ctrlr.unwrap();
    let mut qpair = ctrlr.alloc_io_queue_pair(QueuePriority::Urgent).unwrap();
    let mut namespaces = ctrlr.namespaces();
    let ns = &mut namespaces[0];

    let stats: Rc<Stats> = Rc::new(Stats::default());
    let sector_size = ns.sector_size() as usize;
    let lba_count: u32 = 8;
    let mut wbuf = DMABuffer::allocate_zeroed(lba_count as usize * sector_size, 512);
    wbuf.write_at(0, b"test");
    let mut rbuf = DMABuffer::allocate_zeroed(lba_count as usize * sector_size, 512);

    assert!(ns
        .write(&mut qpair, &wbuf, 0, lba_count, CountingCallback(stats.clone()), 0)
        .is_ok());
    assert!(ns
        .read(&mut qpair, &mut rbuf, 0, lba_count, CountingCallback(stats.clone()), 0)
        .is_ok());

    while stats.count.get() < 2 {
        qpair.process_completions(0);
    }
    assert_eq!(stats.count.get(), 2);
    assert_eq!(stats.last_status.get(), STATUS_SUCCESS);
    assert_eq!(stats.errors.get(), 0);
    // Command ids are handed out in submission order: the read was second.
    assert_eq!(stats.last_cid.get(), 1);
    assert_eq!(&rbuf.as_slice()[0..4], b"test");
    assert!(rbuf.as_slice()[4..].iter().all(|&b| b == 0));

    // Nothing is pending any more: further polls deliver nothing.
    assert_eq!(qpair.process_completions(0), 0);
    assert_eq!(stats.count.get(), 2);
    ctrlr.detach();
}

#[test]
fn poll_limit_bounds_deliveries() {
    let env = one_device_env(1, 128, true);
    let mut h = Collector::new(true);
    probe(&env, (), &mut h).unwrap();
    let mut ctrlr = h.ctrlr.unwrap();
    let mut qpair = ctrlr.alloc_io_queue_pair(QueuePriority::Medium).unwrap();
    let mut namespaces = ctrlr.namespaces();
    let ns = &mut namespaces[0];

    let stats: Rc<Stats> = Rc::new(Stats::default());
    let buf = DMABuffer::allocate_zeroed(512, 512);
    for _ in 0..3 {
        assert!(ns.write(&mut qpair, &buf, 0, 1, CountingCallback(stats.clone()), 0).is_ok());
    }
    assert_eq!(qpair.process_completions(2), 2);
    assert_eq!(stats.count.get(), 2);
    assert_eq!(stats.last_cid.get(), 1);
    assert_eq!(qpair.process_completions(2), 1);
    assert_eq!(stats.count.get(), 3);
    assert_eq!(stats.last_cid.get(), 2);
    assert_eq!(qpair.process_completions(1), 0);
    ctrlr.detach();
}

#[test]
fn failed_submit_never_invokes_callback() {
    let env = one_device_env(1, 128, true);
    let mut h = Collector::new(true);
    probe(&env, (), &mut h).unwrap();
    let mut ctrlr = h.ctrlr.unwrap();
    let mut qpair = ctrlr.alloc_io_queue_pair(QueuePriority::Urgent).unwrap();
    let mut namespaces = ctrlr.namespaces();
    let ns = &mut namespaces[0];

    let stats: Rc<Stats> = Rc::new(Stats::default());
    let small = DMABuffer::allocate_zeroed(512, 512);
    let err = match ns.write(&mut qpair, &small, 0, 8, CountingCallback(stats.clone()), 0) {
        Err(e) => e,
        Ok(_) => panic!("undersized buffer was accepted"),
    };
    assert_eq!(err.kind, SubmitError::BufferTooSmall);
    assert_eq!(qpair.process_completions(0), 0);
    assert_eq!(stats.count.get(), 0);
    ctrlr.detach();
}

#[test]
fn full_queue_rejects_submission_without_losing_it() {
    let env = one_device_env(1, 1, true);
    let mut h = Collector::new(true);
    h.request_io_queue_size = Some(1);
    probe(&env, (), &mut h).unwrap();
    let mut ctrlr = h.ctrlr.unwrap();
    let mut qpair = ctrlr.alloc_io_queue_pair(QueuePriority::Urgent).unwrap();
    let mut namespaces = ctrlr.namespaces();
    let ns = &mut namespaces[0];

    let stats: Rc<Stats> = Rc::new(Stats::default());
    let buf = DMABuffer::allocate_zeroed(512, 512);
    assert!(ns.write(&mut qpair, &buf, 0, 1, CountingCallback(stats.clone()), 0).is_ok());
    assert_eq!(qpair.pending_count(), 1);
    let err = match ns.write(&mut qpair, &buf, 1, 1, CountingCallback(stats.clone()), 0) {
        Err(e) => e,
        Ok(_) => panic!("full queue accepted a command"),
    };
    assert_eq!(err.kind, SubmitError::QueueFull);
    assert_eq!(qpair.pending_count(), 1);
    assert_eq!(qpair.process_completions(0), 1);
    assert_eq!(stats.count.get(), 1);
    assert_eq!(qpair.process_completions(0), 0);
    assert_eq!(stats.count.get(), 1);
    // Ownership of the rejected callback reverted to the caller: the
    // very same value can be submitted again, and now completes.
    assert!(ns.write(&mut qpair, &buf, 1, 1, err.callback, 0).is_ok());
    assert_eq!(qpair.process_completions(0), 1);
    assert_eq!(stats.count.get(), 2);
    ctrlr.detach();
}

#[test]
fn out_of_range_command_reports_through_completion() {
    let env = one_device_env(1, 16, true);
    let mut h = Collector::new(true);
    probe(&env, (), &mut h).unwrap();
    let mut ctrlr = h.ctrlr.unwrap();
    let mut qpair = ctrlr.alloc_io_queue_pair(QueuePriority::Urgent).unwrap();
    let mut namespaces = ctrlr.namespaces();
    let ns = &mut namespaces[0];

    let stats: Rc<Stats> = Rc::new(Stats::default());
    let buf = DMABuffer::allocate_zeroed(512, 512);
    // The namespace has 64 sectors; submission past the end is accepted
    // and the error arrives only in the completion record.
    assert!(ns.write(&mut qpair, &buf, 64, 1, CountingCallback(stats.clone()), 0).is_ok());
    assert_eq!(qpair.process_completions(0), 1);
    assert_eq!(stats.count.get(), 1);
    assert_eq!(stats.last_status.get(), STATUS_LBA_OUT_OF_RANGE);
    assert_eq!(stats.errors.get(), 1);
    ctrlr.detach();
}

#[test]
fn namespace_info_rejects_bad_geometry() {
    assert!(NamespaceInfo::new(true, 0, 8, 0, 0, 0).is_none());
    assert!(NamespaceInfo::new(true, 512, MAX_NAMESPACE_BYTES, 0, 0, 0).is_none());
    assert!(NamespaceInfo::new(true, 512, MAX_NAMESPACE_BYTES / 512, 0, 0, 0).is_some());
}

#[test]
fn environment_defaults_enable_every_transport() {
    let env = init_env(EnvOpts::new());
    assert_eq!(env.device_count(), 0);
    assert!(env.transport_enabled(TransportType::Pcie));
    assert!(env.transport_enabled(TransportType::Tcp));
    assert!(env.transport_enabled(TransportType::Rdma));
}

#[test]
fn discovery_log_collects_every_attached_controller() {
    let mut opts = EnvOpts::new();
    for addr in ["0000:04:00.0", "0000:05:00.0"] {
        let mut cfg = ControllerConfig::new(
            TransportType::Pcie,
            String::from(addr),
            3,
            0,
            1,
            16,
            true,
        );
        cfg.add_namespace(NamespaceInfo::new(true, 512, 8, 0, 0, 0).unwrap());
        opts.add_device(cfg);
    }
    let env = init_env(opts);
    let mut log = DiscoveryLog::new();
    probe(&env, (), &mut log).unwrap();
    assert_eq!(log.controller_count(), 2);
    let (controllers, options) = log.into_parts();
    assert_eq!(controllers.len(), 2);
    assert_eq!(options.len(), 2);
    for ctrlr in controllers {
        assert_eq!(ctrlr.pci_vendor_id(), 3);
        assert_eq!(ctrlr.namespace_count(), 1);
        ctrlr.detach();
    }
}
