//! Record schemas of the snapshot: one record per connected device plus the
//! aggregate `DeviceStates`.
//!
//! Every record is versioned as a unit. The aggregate carries two fields
//! that appeared after schema version 1: `balloon_device` (since version 2)
//! and `mmds_version` (since version 3). The serialize hooks on the
//! aggregate decide what may be written at an older target version.

use vstd::prelude::*;

use crate::errors::Error;

verus! {

/// Holds the MMDS data store version.
#[derive(Clone, Copy, Debug, PartialEq, Eq, Structural)]
pub enum MmdsVersionState {
    V1,
    V2,
}

/// Cache policy of a block device, part of its persisted configuration.
#[derive(Clone, Copy, Debug, PartialEq, Eq, Structural)]
pub enum CacheType {
    Unsafe,
    Writeback,
}

/// Which legacy device a `ConnectedLegacyState` describes.
#[derive(Clone, Copy, Debug, PartialEq, Eq, Structural)]
pub enum LegacyDeviceKind {
    Serial,
    Rtc,
}

/// Records the physical placement of one device on the MMIO bus.
///
/// Slots are immutable once the bus allocator hands them out: the address
/// ranges of two slots never overlap, IRQs are unique, and the device
/// identifier is unique within a device kind.
#[derive(Debug)]
pub struct MmioSlot {
    /// First guest-physical address of the device's register window.
    pub base_address: u64,
    /// Length of the register window in bytes.
    pub length: u64,
    /// Interrupt number wired to the device.
    pub irq: u32,
    /// Device identifier, unique within a device kind.
    pub device_id: String,
}

/// Mathematical value of an [`MmioSlot`].
#[verifier::ext_equal]
pub struct MmioSlotV {
    pub base_address: u64,
    pub length: u64,
    pub irq: u32,
    pub device_id: Seq<char>,
}

impl View for MmioSlot {
    type V = MmioSlotV;

    open spec fn view(&self) -> MmioSlotV {
        MmioSlotV {
            base_address: self.base_address,
            length: self.length,
            irq: self.irq,
            device_id: self.device_id@,
        }
    }
}

impl MmioSlot {
    /// Copy of the slot, field by field.
    pub fn duplicate(&self) -> (r: MmioSlot)
        ensures
            r@ == self@,
    {
        MmioSlot {
            base_address: self.base_address,
            length: self.length,
            irq: self.irq,
            device_id: self.device_id.clone(),
        }
    }
}

/// The negotiated configuration of a virtio MMIO transport that must be
/// preserved across a snapshot.
#[derive(Clone, Copy, Debug, PartialEq, Eq, Structural)]
pub struct MmioTransportState {
    /// Queue currently selected by the guest driver.
    pub queue_select: u16,
    /// Feature bits acknowledged by the guest driver.
    pub acked_features: u64,
    /// Pending interrupt status bits.
    pub interrupt_status: u8,
    /// Device status byte of the virtio handshake.
    pub device_status: u8,
}

/// Persisted configuration of a balloon device.
#[derive(Clone, Copy, Debug, PartialEq, Eq, Structural)]
pub struct BalloonState {
    /// Target balloon size in mebibytes.
    pub amount_mib: u32,
    /// Whether the balloon deflates under guest memory pressure.
    pub deflate_on_oom: bool,
    /// Statistics polling interval in seconds; zero disables polling.
    pub stats_polling_interval_s: u16,
}

/// Persisted configuration of a block device.
#[derive(Clone, Copy, Debug, PartialEq, Eq, Structural)]
pub struct BlockState {
    /// Whether the guest boots from this device.
    pub is_root_device: bool,
    /// Whether the backing file is opened read-only.
    pub is_read_only: bool,
    /// Cache policy of the backing file.
    pub cache_type: CacheType,
    /// Writeback metadata flushed into the state by the save traversal.
    pub flushed_metadata: u64,
}

/// Persisted state of the MMDS network namespace a net device may own.
#[derive(Clone, Copy, Debug, PartialEq, Eq, Structural)]
pub struct MmdsNetworkStackState {
    /// IPv4 address the metadata service answers on, as one big-endian word.
    pub ipv4_addr: u32,
}

/// Persisted configuration of a net device.
#[derive(Debug)]
pub struct NetState {
    /// Name of the host-side tap device.
    pub host_dev_name: String,
    /// Present when the device owns a reference to the MMDS namespace.
    pub mmds_ns: Option<MmdsNetworkStackState>,
}

/// Mathematical value of a [`NetState`].
#[verifier::ext_equal]
pub struct NetStateV {
    pub host_dev_name: Seq<char>,
    pub mmds_ns: Option<MmdsNetworkStackState>,
}

impl View for NetState {
    type V = NetStateV;

    open spec fn view(&self) -> NetStateV {
        NetStateV { host_dev_name: self.host_dev_name@, mmds_ns: self.mmds_ns }
    }
}

/// Persisted state of the vsock frontend.
#[derive(Clone, Copy, Debug, PartialEq, Eq, Structural)]
pub struct VsockFrontendState {
    /// Context identifier assigned to the guest.
    pub cid: u64,
}

/// Persisted state of the vsock UNIX backend.
#[derive(Debug)]
pub struct VsockBackendState {
    /// Path of the host-side UNIX socket.
    pub uds_path: String,
}

/// Mathematical value of a [`VsockBackendState`].
#[verifier::ext_equal]
pub struct VsockBackendStateV {
    pub uds_path: Seq<char>,
}

impl View for VsockBackendState {
    type V = VsockBackendStateV;

    open spec fn view(&self) -> VsockBackendStateV {
        VsockBackendStateV { uds_path: self.uds_path@ }
    }
}

/// Persisted state of a vsock device: backend first, frontend second, the
/// order in which restore rebuilds them.
#[derive(Debug)]
pub struct VsockState {
    /// State of the UNIX backend.
    pub backend: VsockBackendState,
    /// State of the virtio frontend.
    pub frontend: VsockFrontendState,
}

/// Mathematical value of a [`VsockState`].
#[verifier::ext_equal]
pub struct VsockStateV {
    pub backend: VsockBackendStateV,
    pub frontend: VsockFrontendState,
}

impl View for VsockState {
    type V = VsockStateV;

    open spec fn view(&self) -> VsockStateV {
        VsockStateV { backend: self.backend@, frontend: self.frontend }
    }
}

/// Holds the state of a balloon device connected to the MMIO space.
#[derive(Debug)]
pub struct ConnectedBalloonState {
    /// Device identifier.
    pub device_id: String,
    /// Device state.
    pub device_state: BalloonState,
    /// Mmio transport state.
    pub transport_state: MmioTransportState,
    /// Placement of the device on the MMIO bus.
    pub mmio_slot: MmioSlot,
}

/// Mathematical value of a [`ConnectedBalloonState`].
#[verifier::ext_equal]
pub struct ConnectedBalloonV {
    pub device_id: Seq<char>,
    pub device_state: BalloonState,
    pub transport_state: MmioTransportState,
    pub mmio_slot: MmioSlotV,
}

impl View for ConnectedBalloonState {
    type V = ConnectedBalloonV;

    open spec fn view(&self) -> ConnectedBalloonV {
        ConnectedBalloonV {
            device_id: self.device_id@,
            device_state: self.device_state,
            transport_state: self.transport_state,
            mmio_slot: self.mmio_slot@,
        }
    }
}

/// Holds the state of a block device connected to the MMIO space.
#[derive(Debug)]
pub struct ConnectedBlockState {
    /// Device identifier.
    pub device_id: String,
    /// Device state.
    pub device_state: BlockState,
    /// Mmio transport state.
    pub transport_state: MmioTransportState,
    /// Placement of the device on the MMIO bus.
    pub mmio_slot: MmioSlot,
}

/// Mathematical value of a [`ConnectedBlockState`].
#[verifier::ext_equal]
pub struct ConnectedBlockV {
    pub device_id: Seq<char>,
    pub device_state: BlockState,
    pub transport_state: MmioTransportState,
    pub mmio_slot: MmioSlotV,
}

impl View for ConnectedBlockState {
    type V = ConnectedBlockV;

    open spec fn view(&self) -> ConnectedBlockV {
        ConnectedBlockV {
            device_id: self.device_id@,
            device_state: self.device_state,
            transport_state: self.transport_state,
            mmio_slot: self.mmio_slot@,
        }
    }
}

/// Holds the state of a net device connected to the MMIO space.
#[derive(Debug)]
pub struct ConnectedNetState {
    /// Device identifier.
    pub device_id: String,
    /// Device state.
    pub device_state: NetState,
    /// Mmio transport state.
    pub transport_state: MmioTransportState,
    /// Placement of the device on the MMIO bus.
    pub mmio_slot: MmioSlot,
}

/// Mathematical value of a [`ConnectedNetState`].
#[verifier::ext_equal]
pub struct ConnectedNetV {
    pub device_id: Seq<char>,
    pub device_state: NetStateV,
    pub transport_state: MmioTransportState,
    pub mmio_slot: MmioSlotV,
}

impl View for ConnectedNetState {
    type V = ConnectedNetV;

    open spec fn view(&self) -> ConnectedNetV {
        ConnectedNetV {
            device_id: self.device_id@,
            device_state: self.device_state@,
            transport_state: self.transport_state,
            mmio_slot: self.mmio_slot@,
        }
    }
}

/// Holds the state of a vsock device connected to the MMIO space.
#[derive(Debug)]
pub struct ConnectedVsockState {
    /// Device identifier.
    pub device_id: String,
    /// Device state.
    pub device_state: VsockState,
    /// Mmio transport state.
    pub transport_state: MmioTransportState,
    /// Placement of the device on the MMIO bus.
    pub mmio_slot: MmioSlot,
}

/// Mathematical value of a [`ConnectedVsockState`].
#[verifier::ext_equal]
pub struct ConnectedVsockV {
    pub device_id: Seq<char>,
    pub device_state: VsockStateV,
    pub transport_state: MmioTransportState,
    pub mmio_slot: MmioSlotV,
}

impl View for ConnectedVsockState {
    type V = ConnectedVsockV;

    open spec fn view(&self) -> ConnectedVsockV {
        ConnectedVsockV {
            device_id: self.device_id@,
            device_state: self.device_state@,
            transport_state: self.transport_state,
            mmio_slot: self.mmio_slot@,
        }
    }
}

/// Holds the state of a legacy device connected to the MMIO space.
///
/// Legacy devices persist no device state: they are reconstructed from
/// defaults, only their placement is recorded.
#[derive(Debug)]
pub struct ConnectedLegacyState {
    /// Which legacy device this record describes.
    pub type_: LegacyDeviceKind,
    /// Placement of the device on the MMIO bus.
    pub mmio_slot: MmioSlot,
}

/// Mathematical value of a [`ConnectedLegacyState`].
#[verifier::ext_equal]
pub struct ConnectedLegacyV {
    pub type_: LegacyDeviceKind,
    pub mmio_slot: MmioSlotV,
}

impl View for ConnectedLegacyState {
    type V = ConnectedLegacyV;

    open spec fn view(&self) -> ConnectedLegacyV {
        ConnectedLegacyV { type_: self.type_, mmio_slot: self.mmio_slot@ }
    }
}

/// Holds the device states: the aggregate root of the snapshot.
#[derive(Debug)]
pub struct DeviceStates {
    /// State of legacy devices in MMIO space.
    pub legacy_devices: Vec<ConnectedLegacyState>,
    /// Block device states, in the directory's insertion order.
    pub block_devices: Vec<ConnectedBlockState>,
    /// Net device states, in the directory's insertion order.
    pub net_devices: Vec<ConnectedNetState>,
    /// Vsock device state.
    pub vsock_device: Option<ConnectedVsockState>,
    /// Balloon device state. Present in the schema since version 2.
    pub balloon_device: Option<ConnectedBalloonState>,
    /// Mmds version. Present in the schema since version 3.
    pub mmds_version: Option<MmdsVersionState>,
}

/// Mathematical value of a [`DeviceStates`].
#[verifier::ext_equal]
pub struct DeviceStatesV {
    pub legacy_devices: Seq<ConnectedLegacyV>,
    pub block_devices: Seq<ConnectedBlockV>,
    pub net_devices: Seq<ConnectedNetV>,
    pub vsock_device: Option<ConnectedVsockV>,
    pub balloon_device: Option<ConnectedBalloonV>,
    pub mmds_version: Option<MmdsVersionState>,
}

/// Views of a sequence of legacy records, element by element.
pub open spec fn views_of_legacy(s: Seq<ConnectedLegacyState>) -> Seq<ConnectedLegacyV> {
    s.map_values(|x: ConnectedLegacyState| x@)
}

/// Views of a sequence of block records, element by element.
pub open spec fn views_of_blocks(s: Seq<ConnectedBlockState>) -> Seq<ConnectedBlockV> {
    s.map_values(|x: ConnectedBlockState| x@)
}

/// Views of a sequence of net records, element by element.
pub open spec fn views_of_nets(s: Seq<ConnectedNetState>) -> Seq<ConnectedNetV> {
    s.map_values(|x: ConnectedNetState| x@)
}

impl View for DeviceStates {
    type V = DeviceStatesV;

    open spec fn view(&self) -> DeviceStatesV {
        DeviceStatesV {
            legacy_devices: views_of_legacy(self.legacy_devices@),
            block_devices: views_of_blocks(self.block_devices@),
            net_devices: views_of_nets(self.net_devices@),
            vsock_device: match self.vsock_device {
                Some(ref s) => Some(s@),
                None => None,
            },
            balloon_device: match self.balloon_device {
                Some(ref s) => Some(s@),
                None => None,
            },
            mmds_version: self.mmds_version,
        }
    }
}

impl DeviceStates {
    /// Serialize hook of the `balloon_device` field: a target schema version
    /// that predates the balloon field cannot describe a snapshot that
    /// carries a balloon, so saving one is a hard semantic error.
    pub fn balloon_serialize(&self, target_version: u16) -> (r: Result<(), Error>)
        ensures
            r is Ok <==> !(target_version < 2 && self.balloon_device is Some),
            r matches Err(e) ==> (e matches Error::SchemaSemantic(m)
                && m@ == "Target version does not implement the virtio-balloon device."@),
    {
        if target_version < 2 && self.balloon_device.is_some() {
            return Err(
                Error::SchemaSemantic(
                    "Target version does not implement the virtio-balloon device.".to_owned(),
                ),
            );
        }
        Ok(())
    }

    /// Serialize hook of the `mmds_version` field: a target schema version
    /// that predates the field silently drops it, so the hook always
    /// succeeds. The reader of such a snapshot applies the default-inference
    /// rule of the restore traversal instead.
    pub fn mmds_version_serialize(&self, target_version: u16) -> (r: Result<(), Error>)
        ensures
            r is Ok,
    {
        let _ = target_version;
        Ok(())
    }
}

} // verus!
