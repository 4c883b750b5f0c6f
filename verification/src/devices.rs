//! The live devices of the directory, as the snapshot subsystem sees them.
//!
//! Device internals are out of scope here: each device carries exactly the
//! plain values its persisted state is built from, a `save` that captures
//! that state, and a `restore` that rebuilds the device from a state and
//! the mapped guest memory.

use vstd::prelude::*;

use crate::records::{
    BalloonState, BlockState, CacheType, MmdsNetworkStackState, MmioTransportState, NetState,
    NetStateV, VsockBackendState, VsockFrontendState,
};
use crate::resources::{Mmds, MmdsVersion};

verus! {

/// Virtio device type of a net device.
pub const TYPE_NET: u32 = 1;

/// Virtio device type of a block device.
pub const TYPE_BLOCK: u32 = 2;

/// Virtio device type of a balloon device.
pub const TYPE_BALLOON: u32 = 5;

/// Virtio device type of a vsock device.
pub const TYPE_VSOCK: u32 = 19;

/// Stand-in for the mapped guest memory handed to every restored device.
///
/// The snapshot subsystem never reads through it; it only passes it to the
/// device constructors, which require the mapping to have the same layout
/// it had at save time.
#[derive(Clone, Copy, Debug, PartialEq, Eq, Structural)]
pub struct GuestMemoryHandle {
    /// Total size of the mapping in bytes.
    pub size: u64,
}

/// A live balloon device.
#[derive(Clone, Copy, Debug, PartialEq, Eq, Structural)]
pub struct Balloon {
    pub amount_mib: u32,
    pub deflate_on_oom: bool,
    pub stats_polling_interval_s: u16,
}

impl Balloon {
    /// The state `save` captures.
    pub open spec fn state_spec(&self) -> BalloonState {
        BalloonState {
            amount_mib: self.amount_mib,
            deflate_on_oom: self.deflate_on_oom,
            stats_polling_interval_s: self.stats_polling_interval_s,
        }
    }

    /// Captures the device's persisted state.
    pub fn save(&self) -> (r: BalloonState)
        ensures
            r == self.state_spec(),
    {
        BalloonState {
            amount_mib: self.amount_mib,
            deflate_on_oom: self.deflate_on_oom,
            stats_polling_interval_s: self.stats_polling_interval_s,
        }
    }

    /// Rebuilds the device from guest memory and its persisted state.
    #[allow(unused_variables)]
    pub fn restore(mem: &GuestMemoryHandle, state: &BalloonState) -> (r: Balloon)
        ensures
            r.state_spec() == *state,
    {
        Balloon {
            amount_mib: state.amount_mib,
            deflate_on_oom: state.deflate_on_oom,
            stats_polling_interval_s: state.stats_polling_interval_s,
        }
    }
}

/// A live block device.
///
/// `pending_metadata` models writeback metadata that has not reached the
/// device state yet; the save traversal flushes it before capturing.
#[derive(Clone, Copy, Debug, PartialEq, Eq, Structural)]
pub struct Block {
    pub is_root_device: bool,
    pub is_read_only: bool,
    pub cache_type: CacheType,
    pub pending_metadata: u64,
    pub flushed_metadata: u64,
}

impl Block {
    /// The state `save` captures.
    pub open spec fn state_spec(&self) -> BlockState {
        BlockState {
            is_root_device: self.is_root_device,
            is_read_only: self.is_read_only,
            cache_type: self.cache_type,
            flushed_metadata: self.flushed_metadata,
        }
    }

    /// Flushes in-flight writeback metadata into the device state, so that
    /// the state captured right after is complete.
    pub fn prepare_save(&mut self)
        ensures
            final(self).flushed_metadata == old(self).pending_metadata,
            final(self).pending_metadata == 0,
            final(self).is_root_device == old(self).is_root_device,
            final(self).is_read_only == old(self).is_read_only,
            final(self).cache_type == old(self).cache_type,
    {
        self.flushed_metadata = self.pending_metadata;
        self.pending_metadata = 0;
    }

    /// Captures the device's persisted state.
    pub fn save(&self) -> (r: BlockState)
        ensures
            r == self.state_spec(),
    {
        BlockState {
            is_root_device: self.is_root_device,
            is_read_only: self.is_read_only,
            cache_type: self.cache_type,
            flushed_metadata: self.flushed_metadata,
        }
    }

    /// Rebuilds the device from guest memory and its persisted state. A
    /// restored device has no in-flight metadata.
    #[allow(unused_variables)]
    pub fn restore(mem: &GuestMemoryHandle, state: &BlockState) -> (r: Block)
        ensures
            r.state_spec() == *state,
            r.pending_metadata == 0,
    {
        Block {
            is_root_device: state.is_root_device,
            is_read_only: state.is_read_only,
            cache_type: state.cache_type,
            pending_metadata: 0,
            flushed_metadata: state.flushed_metadata,
        }
    }
}

/// The MMDS namespace a net device may own: a shared handle onto the MMDS
/// data store, carrying the address it answers on and the store's version.
#[derive(Clone, Copy, Debug, PartialEq, Eq, Structural)]
pub struct MmdsNetworkStack {
    pub ipv4_addr: u32,
    pub version: MmdsVersion,
}

/// A live net device.
#[derive(Debug)]
pub struct Net {
    pub host_dev_name: String,
    pub mmds_ns: Option<MmdsNetworkStack>,
}

/// Mathematical value of a [`Net`].
#[verifier::ext_equal]
pub struct NetV {
    pub host_dev_name: Seq<char>,
    pub mmds_ns: Option<MmdsNetworkStack>,
}

impl View for Net {
    type V = NetV;

    open spec fn view(&self) -> NetV {
        NetV { host_dev_name: self.host_dev_name@, mmds_ns: self.mmds_ns }
    }
}

impl Net {
    /// The state `save` captures.
    pub open spec fn state_spec(&self) -> NetStateV {
        NetStateV {
            host_dev_name: self.host_dev_name@,
            mmds_ns: match self.mmds_ns {
                Some(ns) => Some(MmdsNetworkStackState { ipv4_addr: ns.ipv4_addr }),
                None => None,
            },
        }
    }

    /// Captures the device's persisted state.
    pub fn save(&self) -> (r: NetState)
        ensures
            r@ == self.state_spec(),
    {
        NetState {
            host_dev_name: self.host_dev_name.clone(),
            mmds_ns: match self.mmds_ns {
                Some(ns) => Some(MmdsNetworkStackState { ipv4_addr: ns.ipv4_addr }),
                None => None,
            },
        }
    }

    /// Rebuilds the device. When the persisted state declares an MMDS
    /// namespace, the rebuilt namespace holds a clone of the supplied MMDS
    /// handle - its version is the store's version, or the default if no
    /// store was handed in.
    #[allow(unused_variables)]
    pub fn restore(mem: &GuestMemoryHandle, mmds: Option<&Mmds>, state: &NetState) -> (r: Net)
        ensures
            r.host_dev_name@ == state.host_dev_name@,
            r.mmds_ns == (match state.mmds_ns {
                Some(ns) => Some(
                    MmdsNetworkStack {
                        ipv4_addr: ns.ipv4_addr,
                        version: match mmds {
                            Some(store) => store.version,
                            None => MmdsVersion::V1,
                        },
                    },
                ),
                None => None,
            }),
    {
        let version = match mmds {
            Some(store) => store.version,
            None => MmdsVersion::V1,
        };
        Net {
            host_dev_name: state.host_dev_name.clone(),
            mmds_ns: match state.mmds_ns {
                Some(ns) => Some(MmdsNetworkStack { ipv4_addr: ns.ipv4_addr, version }),
                None => None,
            },
        }
    }

    /// Copy of the device, field by field, as handed to the VMM resources.
    pub fn duplicate(&self) -> (r: Net)
        ensures
            r@ == self@,
    {
        Net { host_dev_name: self.host_dev_name.clone(), mmds_ns: self.mmds_ns }
    }
}

/// An event the vsock device queues towards its guest-facing frontend.
#[derive(Clone, Copy, Debug, PartialEq, Eq, Structural)]
pub enum VsockEvent {
    /// The guest must observe every vsock connection as torn down.
    TransportReset,
}

/// The UNIX backend of a vsock device.
#[derive(Debug)]
pub struct VsockUnixBackend {
    pub cid: u64,
    pub uds_path: String,
}

impl VsockUnixBackend {
    /// Captures the backend's persisted state.
    pub fn save(&self) -> (r: VsockBackendState)
        ensures
            r.uds_path@ == self.uds_path@,
    {
        VsockBackendState { uds_path: self.uds_path.clone() }
    }

    /// Rebuilds the backend from the guest context identifier and its
    /// persisted state.
    pub fn restore(cid: u64, state: &VsockBackendState) -> (r: VsockUnixBackend)
        ensures
            r.cid == cid,
            r.uds_path@ == state.uds_path@,
    {
        VsockUnixBackend { cid, uds_path: state.uds_path.clone() }
    }
}

/// A live vsock device: the virtio frontend over its UNIX backend.
///
/// `transport_events` is the queue of events the guest-facing frontend
/// will observe; the save traversal pushes a transport reset there when it
/// captures an activated device.
#[derive(Debug)]
pub struct Vsock {
    pub cid: u64,
    pub backend: VsockUnixBackend,
    pub activated: bool,
    pub transport_events: Vec<VsockEvent>,
}

/// Mathematical value of a [`Vsock`].
#[verifier::ext_equal]
pub struct VsockV {
    pub cid: u64,
    pub backend_uds_path: Seq<char>,
    pub activated: bool,
    pub transport_events: Seq<VsockEvent>,
}

impl View for Vsock {
    type V = VsockV;

    open spec fn view(&self) -> VsockV {
        VsockV {
            cid: self.cid,
            backend_uds_path: self.backend.uds_path@,
            activated: self.activated,
            transport_events: self.transport_events@,
        }
    }
}

impl Vsock {
    /// The backend, as the save traversal reads it.
    pub fn backend(&self) -> (r: &VsockUnixBackend)
        ensures
            r == &self.backend,
    {
        &self.backend
    }

    /// Whether the device has been activated by the guest driver.
    pub fn is_activated(&self) -> (r: bool)
        ensures
            r == self.activated,
    {
        self.activated
    }

    /// Queues exactly one transport-reset event towards the frontend.
    pub fn send_transport_reset_event(&mut self)
        ensures
            final(self).transport_events@ == old(self).transport_events@.push(
                VsockEvent::TransportReset,
            ),
            final(self).cid == old(self).cid,
            final(self).backend.uds_path@ == old(self).backend.uds_path@,
            final(self).backend.cid == old(self).backend.cid,
            final(self).activated == old(self).activated,
    {
        self.transport_events.push(VsockEvent::TransportReset);
    }

    /// Captures the frontend's persisted state.
    pub fn save(&self) -> (r: VsockFrontendState)
        ensures
            r.cid == self.cid,
    {
        VsockFrontendState { cid: self.cid }
    }

    /// Rebuilds the frontend from guest memory, a rebuilt backend and the
    /// frontend's persisted state. A restored device is not yet activated
    /// and has no queued events.
    #[allow(unused_variables)]
    pub fn restore(
        mem: &GuestMemoryHandle,
        backend: VsockUnixBackend,
        state: &VsockFrontendState,
    ) -> (r: Vsock)
        ensures
            r.cid == state.cid,
            r.backend.cid == backend.cid,
            r.backend.uds_path@ == backend.uds_path@,
            r.activated == false,
            r.transport_events@ == Seq::<VsockEvent>::empty(),
    {
        let events: Vec<VsockEvent> = Vec::new();
        Vsock { cid: state.cid, backend, activated: false, transport_events: events }
    }

    /// Copy of the device, field by field, as handed to the VMM resources.
    pub fn duplicate(&self) -> (r: Vsock)
        ensures
            r@ == self@,
    {
        let mut events: Vec<VsockEvent> = Vec::new();
        let mut i: usize = 0;
        while i < self.transport_events.len()
            invariant
                i <= self.transport_events@.len(),
                events@ == self.transport_events@.take(i as int),
            decreases self.transport_events@.len() - i,
        {
            events.push(self.transport_events[i]);
            proof {
                assert(self.transport_events@.take(i as int + 1) =~= self.transport_events@.take(
                    i as int,
                ).push(self.transport_events@[i as int]));
            }
            i = i + 1;
        }
        proof {
            assert(self.transport_events@.take(self.transport_events@.len() as int)
                =~= self.transport_events@);
        }
        Vsock {
            cid: self.cid,
            backend: VsockUnixBackend {
                cid: self.backend.cid,
                uds_path: self.backend.uds_path.clone(),
            },
            activated: self.activated,
            transport_events: events,
        }
    }
}

/// A concrete virtio device behind an MMIO transport.
#[derive(Debug)]
pub enum VirtioDevice {
    Balloon(Balloon),
    Block(Block),
    Net(Net),
    Vsock(Vsock),
}

/// Mathematical value of a [`VirtioDevice`].
#[verifier::ext_equal]
pub enum VirtioDeviceV {
    Balloon(Balloon),
    Block(Block),
    Net(NetV),
    Vsock(VsockV),
}

impl View for VirtioDevice {
    type V = VirtioDeviceV;

    open spec fn view(&self) -> VirtioDeviceV {
        match self {
            VirtioDevice::Balloon(d) => VirtioDeviceV::Balloon(*d),
            VirtioDevice::Block(d) => VirtioDeviceV::Block(*d),
            VirtioDevice::Net(d) => VirtioDeviceV::Net(d@),
            VirtioDevice::Vsock(d) => VirtioDeviceV::Vsock(d@),
        }
    }
}

/// Virtio device type advertised by a device value.
pub open spec fn spec_device_type(d: VirtioDeviceV) -> u32 {
    match d {
        VirtioDeviceV::Balloon(_) => TYPE_BALLOON,
        VirtioDeviceV::Block(_) => TYPE_BLOCK,
        VirtioDeviceV::Net(_) => TYPE_NET,
        VirtioDeviceV::Vsock(_) => TYPE_VSOCK,
    }
}

impl VirtioDevice {
    /// Virtio device type the device advertises to its driver.
    pub fn device_type(&self) -> (r: u32)
        ensures
            r == spec_device_type(self@),
    {
        match self {
            VirtioDevice::Balloon(_) => TYPE_BALLOON,
            VirtioDevice::Block(_) => TYPE_BLOCK,
            VirtioDevice::Net(_) => TYPE_NET,
            VirtioDevice::Vsock(_) => TYPE_VSOCK,
        }
    }
}

/// A virtio MMIO transport: the negotiated transport state paired with the
/// device it drives.
#[derive(Debug)]
pub struct MmioTransport {
    pub state: MmioTransportState,
    pub device: VirtioDevice,
}

/// Mathematical value of an [`MmioTransport`].
#[verifier::ext_equal]
pub struct MmioTransportV {
    pub state: MmioTransportState,
    pub device: VirtioDeviceV,
}

impl View for MmioTransport {
    type V = MmioTransportV;

    open spec fn view(&self) -> MmioTransportV {
        MmioTransportV { state: self.state, device: self.device@ }
    }
}

impl MmioTransport {
    /// Captures the transport's persisted state.
    pub fn save(&self) -> (r: MmioTransportState)
        ensures
            r == self.state,
    {
        self.state
    }

    /// Rebuilds a transport over a rebuilt device from its persisted state.
    #[allow(unused_variables)]
    pub fn restore(
        mem: &GuestMemoryHandle,
        device: VirtioDevice,
        state: &MmioTransportState,
    ) -> (r: MmioTransport)
        ensures
            r.state == *state,
            r.device == device,
    {
        MmioTransport { state: *state, device }
    }
}

/// One device as it sits on the MMIO bus: a virtio transport, a legacy
/// device reconstructed from defaults, or the ephemeral boot timer.
#[derive(Debug)]
pub enum BusDevice {
    Virtio(MmioTransport),
    Serial,
    Rtc,
    BootTimer,
}

/// Mathematical value of a [`BusDevice`].
#[verifier::ext_equal]
pub enum BusDeviceV {
    Virtio(MmioTransportV),
    Serial,
    Rtc,
    BootTimer,
}

impl View for BusDevice {
    type V = BusDeviceV;

    open spec fn view(&self) -> BusDeviceV {
        match self {
            BusDevice::Virtio(t) => BusDeviceV::Virtio(t@),
            BusDevice::Serial => BusDeviceV::Serial,
            BusDevice::Rtc => BusDeviceV::Rtc,
            BusDevice::BootTimer => BusDeviceV::BootTimer,
        }
    }
}

} // verus!
