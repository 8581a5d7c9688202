//! Process environment: the one-time bootstrap that every discovery and
//! controller operation presupposes.  Initialization consumes an options
//! value and yields the environment handle; holding the handle is the
//! proof that bootstrap ran, so nothing can probe before it.

use vstd::prelude::*;

use crate::controller::ControllerConfig;
use crate::transport::TransportType;

verus! {

/// The ghost content of the environment: the devices the process can
/// reach and the transports its drivers support.
pub ghost struct EnvView {
    pub devices: Seq<ControllerConfig>,
    pub pcie: bool,
    pub tcp: bool,
    pub rdma: bool,
}

impl EnvView {
    /// Whether a driver for `t` is loaded.
    pub open spec fn transport_enabled(self, t: TransportType) -> bool {
        match t {
            TransportType::Pcie => self.pcie,
            TransportType::Tcp => self.tcp,
            TransportType::Rdma => self.rdma,
        }
    }

    /// Well-formed: every reachable device is.
    pub open spec fn wf(self) -> bool {
        forall|i: int| 0 <= i < self.devices.len() ==> (#[trigger] self.devices[i]).wf()
    }
}

/// Engine options handed to initialization: which devices the process
/// will be able to reach, and which transport drivers it loads.
pub struct EnvOpts {
    devices: Vec<ControllerConfig>,
    pcie: bool,
    tcp: bool,
    rdma: bool,
}

impl View for EnvOpts {
    type V = EnvView;

    closed spec fn view(&self) -> EnvView {
        EnvView { devices: self.devices@, pcie: self.pcie, tcp: self.tcp, rdma: self.rdma }
    }
}

impl EnvOpts {
    /// Well-formed: every named device is.
    pub open spec fn wf(&self) -> bool {
        self@.wf()
    }

    /// Engine defaults: no devices yet, every transport driver loaded.
    pub fn new() -> (r: EnvOpts)
        ensures
            r.wf(),
            r@.devices == Seq::<ControllerConfig>::empty(),
            r@.pcie,
            r@.tcp,
            r@.rdma,
    {
        let r = EnvOpts { devices: Vec::new(), pcie: true, tcp: true, rdma: true };
        proof {
            assert(r@.devices =~= Seq::<ControllerConfig>::empty());
        }
        r
    }

    /// Makes one more device reachable.
    pub fn add_device(&mut self, config: ControllerConfig)
        requires
            old(self).wf(),
            config.wf(),
        ensures
            final(self).wf(),
            final(self)@ == (EnvView { devices: old(self)@.devices.push(config), ..old(self)@ }),
    {
        self.devices.push(config);
    }

    /// Loads or unloads the driver for `t`.
    pub fn set_transport_enabled(&mut self, t: TransportType, enabled: bool)
        requires
            old(self).wf(),
        ensures
            final(self).wf(),
            final(self)@.devices == old(self)@.devices,
            forall|u: TransportType|
                final(self)@.transport_enabled(u) == if u == t {
                    enabled
                } else {
                    old(self)@.transport_enabled(u)
                },
    {
        match t {
            TransportType::Pcie => self.pcie = enabled,
            TransportType::Tcp => self.tcp = enabled,
            TransportType::Rdma => self.rdma = enabled,
        }
        proof {
            assert(self@.devices == old(self)@.devices);
            assert(self.wf());
        }
    }
}

/// The initialized process environment.  There is no teardown: once
/// initialized, the handle lives for as long as the process needs the
/// engine, and initialization is not safely repeatable with a handle
/// still alive.
pub struct Env {
    devices: Vec<ControllerConfig>,
    pcie: bool,
    tcp: bool,
    rdma: bool,
}

impl View for Env {
    type V = EnvView;

    closed spec fn view(&self) -> EnvView {
        EnvView { devices: self.devices@, pcie: self.pcie, tcp: self.tcp, rdma: self.rdma }
    }
}

impl Env {
    /// Well-formed: every reachable device is.
    pub open spec fn wf(&self) -> bool {
        self@.wf()
    }

    /// How many devices are reachable.
    pub fn device_count(&self) -> (n: usize)
        ensures
            n == self@.devices.len(),
    {
        self.devices.len()
    }

    /// The description of one reachable device.
    pub(crate) fn device(&self, i: usize) -> (r: &ControllerConfig)
        requires
            i < self@.devices.len(),
        ensures
            *r == self@.devices[i as int],
    {
        &self.devices[i]
    }

    /// Whether a driver for `t` is loaded.
    pub fn transport_enabled(&self, t: TransportType) -> (r: bool)
        ensures
            r == self@.transport_enabled(t),
    {
        match t {
            TransportType::Pcie => self.pcie,
            TransportType::Tcp => self.tcp,
            TransportType::Rdma => self.rdma,
        }
    }
}

/// Runs the process-wide bootstrap with the given options and returns
/// the environment handle that discovery requires.
pub fn init_env(opts: EnvOpts) -> (env: Env)
    requires
        opts.wf(),
    ensures
        env.wf(),
        env@ == opts@,
{
    let EnvOpts { devices, pcie, tcp, rdma } = opts;
    Env { devices, pcie, tcp, rdma }
}

} // verus!
