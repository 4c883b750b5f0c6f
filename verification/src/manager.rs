//! The MMIO device manager: the ordered directory of live devices, the
//! save traversal that turns it into a `DeviceStates`, and the restore
//! traversal that rebuilds it from one.

use vstd::prelude::*;

use crate::devices::{
    Balloon, Block, BusDevice, BusDeviceV, GuestMemoryHandle, MmdsNetworkStack, MmioTransport,
    MmioTransportV, Net, NetV, VirtioDevice, VirtioDeviceV, Vsock, VsockUnixBackend, VsockV,
};
use crate::errors::{DeviceManagerError, Error};
use crate::records::{
    BalloonState, BlockState, ConnectedBalloonState, ConnectedBalloonV, ConnectedBlockState,
    ConnectedBlockV, ConnectedLegacyState, ConnectedLegacyV, ConnectedNetState, ConnectedNetV,
    ConnectedVsockState, ConnectedVsockV, DeviceStates, DeviceStatesV, LegacyDeviceKind,
    MmdsNetworkStackState, MmdsVersionState, MmioSlot, MmioSlotV, MmioTransportState, NetStateV,
    VsockBackendState, VsockFrontendState, VsockState, VsockStateV,
};
use crate::resources::{
    EventManager, Mmds, MmdsV, MmdsVersion, SharedDeviceType, VmResources, spec_state_from_version,
    spec_version_from_state, subscriber_ids,
};

verus! {

/// First guest-physical address of the platform's MMIO window.
pub const MMIO_MEM_START: u64 = 0xd000_0000;

/// First interrupt number available to MMIO devices.
pub const IRQ_BASE: u32 = 5;

/// Last interrupt number available to MMIO devices.
pub const IRQ_MAX: u32 = 23;

/// One entry of the device directory: a device identifier, the slot the
/// device sits in, and the device itself.
#[derive(Debug)]
pub struct BusEntry {
    pub device_id: String,
    pub slot: MmioSlot,
    pub device: BusDevice,
}

/// Mathematical value of a [`BusEntry`].
#[verifier::ext_equal]
pub struct BusEntryV {
    pub device_id: Seq<char>,
    pub slot: MmioSlotV,
    pub device: BusDeviceV,
}

impl View for BusEntry {
    type V = BusEntryV;

    open spec fn view(&self) -> BusEntryV {
        BusEntryV { device_id: self.device_id@, slot: self.slot@, device: self.device@ }
    }
}

/// Views of a sequence of directory entries, element by element.
pub open spec fn views_of_entries(s: Seq<BusEntry>) -> Seq<BusEntryV> {
    s.map_values(|e: BusEntry| e@)
}

/// Slots of a sequence of directory entries, element by element.
pub open spec fn entry_slots(s: Seq<BusEntryV>) -> Seq<MmioSlotV> {
    s.map_values(|e: BusEntryV| e.slot)
}

/// Whether two slots claim overlapping address ranges.
pub open spec fn slots_overlap(a: MmioSlotV, b: MmioSlotV) -> bool {
    a.base_address < b.base_address + b.length && b.base_address < a.base_address + a.length
}

/// Whether two slots collide: overlapping addresses or a shared interrupt.
pub open spec fn slots_conflict(a: MmioSlotV, b: MmioSlotV) -> bool {
    slots_overlap(a, b) || a.irq == b.irq
}

/// Whether a slot lies inside the manager's MMIO window and IRQ range.
pub open spec fn slot_in_cfg(base: u64, irq_first: u32, irq_last: u32, s: MmioSlotV) -> bool {
    s.base_address >= base && irq_first <= s.irq <= irq_last
}

/// The ordered directory of MMIO devices, seeded with the platform's MMIO
/// base and IRQ range.
#[derive(Debug)]
pub struct MMIODeviceManager {
    pub mmio_base: u64,
    pub irq_first: u32,
    pub irq_last: u32,
    pub entries: Vec<BusEntry>,
}

impl MMIODeviceManager {
    /// Whether a new slot may be registered against the current directory.
    pub open spec fn spec_reg_ok(&self, slot: MmioSlotV) -> bool {
        &&& slot_in_cfg(self.mmio_base, self.irq_first, self.irq_last, slot)
        &&& forall|i: int|
            0 <= i < self.entries@.len() ==> !slots_conflict(
                #[trigger] self.entries@[i]@.slot,
                slot,
            )
    }

    /// The directory invariant: every slot lies in the window and the IRQ
    /// range, and no two slots collide.
    pub open spec fn wf(&self) -> bool {
        &&& forall|i: int|
            0 <= i < self.entries@.len() ==> slot_in_cfg(
                self.mmio_base,
                self.irq_first,
                self.irq_last,
                #[trigger] self.entries@[i]@.slot,
            )
        &&& forall|i: int, j: int|
            0 <= i < j < self.entries@.len() ==> !slots_conflict(
                #[trigger] self.entries@[i]@.slot,
                #[trigger] self.entries@[j]@.slot,
            )
    }

    /// A fresh directory seeded with an MMIO base and an IRQ range.
    pub fn new(mmio_base: u64, irq_range: (u32, u32)) -> (r: MMIODeviceManager)
        ensures
            r.mmio_base == mmio_base,
            r.irq_first == irq_range.0,
            r.irq_last == irq_range.1,
            r.entries@ == Seq::<BusEntry>::empty(),
            r.wf(),
    {
        MMIODeviceManager {
            mmio_base,
            irq_first: irq_range.0,
            irq_last: irq_range.1,
            entries: Vec::new(),
        }
    }

    /// Confirms that a slot lies within the MMIO window and the IRQ range
    /// and collides with no previously registered device.
    pub fn slot_sanity_check(&self, slot: &MmioSlot) -> (r: Result<(), DeviceManagerError>)
        ensures
            r is Ok <==> self.spec_reg_ok(slot@),
            r matches Err(e) ==> match e {
                DeviceManagerError::SlotOutOfWindow => slot@.base_address < self.mmio_base,
                DeviceManagerError::IrqOutOfRange => !(self.irq_first <= slot@.irq
                    <= self.irq_last),
                DeviceManagerError::SlotCollision => exists|i: int|
                    0 <= i < self.entries@.len() && slots_overlap(
                        #[trigger] self.entries@[i]@.slot,
                        slot@,
                    ),
                DeviceManagerError::IrqCollision => exists|i: int|
                    0 <= i < self.entries@.len() && #[trigger] self.entries@[i]@.slot.irq
                        == slot@.irq,
            },
    {
        if slot.base_address < self.mmio_base {
            return Err(DeviceManagerError::SlotOutOfWindow);
        }
        if slot.irq < self.irq_first || slot.irq > self.irq_last {
            return Err(DeviceManagerError::IrqOutOfRange);
        }
        let mut i: usize = 0;
        while i < self.entries.len()
            invariant
                i <= self.entries@.len(),
                forall|k: int|
                    0 <= k < i ==> !slots_conflict(#[trigger] self.entries@[k]@.slot, slot@),
            decreases self.entries@.len() - i,
        {
            let other = &self.entries[i].slot;
            if (other.base_address as u128) < (slot.base_address as u128) + (slot.length as u128)
                && (slot.base_address as u128) < (other.base_address as u128) + (
            other.length as u128) {
                proof {
                    assert(slots_overlap(self.entries@[i as int]@.slot, slot@));
                    assert(slots_conflict(self.entries@[i as int]@.slot, slot@));
                }
                return Err(DeviceManagerError::SlotCollision);
            }
            if other.irq == slot.irq {
                proof {
                    assert(slots_conflict(self.entries@[i as int]@.slot, slot@));
                }
                return Err(DeviceManagerError::IrqCollision);
            }
            i = i + 1;
        }
        Ok(())
    }

    /// Registers a device at a slot: the slot must pass the sanity check
    /// against everything registered before it.
    pub fn register_mmio_device(
        &mut self,
        device_id: String,
        slot: MmioSlot,
        device: BusDevice,
    ) -> (r: Result<(), DeviceManagerError>)
        ensures
            r is Ok <==> old(self).spec_reg_ok(slot@),
            r is Ok ==> views_of_entries(final(self).entries@) == views_of_entries(
                old(self).entries@,
            ).push(BusEntryV { device_id: device_id@, slot: slot@, device: device@ }),
            r is Err ==> final(self).entries@ == old(self).entries@,
            final(self).mmio_base == old(self).mmio_base,
            final(self).irq_first == old(self).irq_first,
            final(self).irq_last == old(self).irq_last,
            old(self).wf() ==> final(self).wf(),
            r matches Err(e) ==> match e {
                DeviceManagerError::SlotOutOfWindow => slot@.base_address < old(self).mmio_base,
                DeviceManagerError::IrqOutOfRange => !(old(self).irq_first <= slot@.irq <= old(
                    self,
                ).irq_last),
                DeviceManagerError::SlotCollision => exists|i: int|
                    0 <= i < old(self).entries@.len() && slots_overlap(
                        #[trigger] old(self).entries@[i]@.slot,
                        slot@,
                    ),
                DeviceManagerError::IrqCollision => exists|i: int|
                    0 <= i < old(self).entries@.len() && #[trigger] old(self).entries@[i]@.slot.irq
                        == slot@.irq,
            },
    {
        match self.slot_sanity_check(&slot) {
            Ok(()) => {},
            Err(e) => {
                return Err(e);
            },
        }
        let ghost oldviews = views_of_entries(self.entries@);
        let entry = BusEntry { device_id, slot, device };
        let ghost entryv = entry@;
        self.entries.push(entry);
        proof {
            assert(views_of_entries(self.entries@) =~= oldviews.push(entryv));
            if old(self).wf() {
                assert forall|i: int, j: int|
                    0 <= i < j < self.entries@.len() implies !slots_conflict(
                    #[trigger] self.entries@[i]@.slot,
                    #[trigger] self.entries@[j]@.slot,
                ) by {
                    if j < self.entries@.len() - 1 {
                        assert(self.entries@[i] == old(self).entries@[i]);
                        assert(self.entries@[j] == old(self).entries@[j]);
                    } else {
                        assert(self.entries@[i] == old(self).entries@[i]);
                    }
                }
            }
        }
        Ok(())
    }

    /// Registers a virtio device behind its MMIO transport.
    pub fn register_mmio_virtio(
        &mut self,
        device_id: String,
        transport: MmioTransport,
        slot: MmioSlot,
    ) -> (r: Result<(), DeviceManagerError>)
        ensures
            r is Ok <==> old(self).spec_reg_ok(slot@),
            r is Ok ==> views_of_entries(final(self).entries@) == views_of_entries(
                old(self).entries@,
            ).push(
                BusEntryV {
                    device_id: device_id@,
                    slot: slot@,
                    device: BusDeviceV::Virtio(transport@),
                },
            ),
            r is Err ==> final(self).entries@ == old(self).entries@,
            final(self).mmio_base == old(self).mmio_base,
            final(self).irq_first == old(self).irq_first,
            final(self).irq_last == old(self).irq_last,
            old(self).wf() ==> final(self).wf(),
    {
        self.register_mmio_device(device_id, slot, BusDevice::Virtio(transport))
    }

    /// Registers a default serial device at a slot; its identifier is the
    /// slot's device identifier.
    pub fn register_mmio_serial(&mut self, slot: MmioSlot) -> (r: Result<(), DeviceManagerError>)
        ensures
            r is Ok <==> old(self).spec_reg_ok(slot@),
            r is Ok ==> views_of_entries(final(self).entries@) == views_of_entries(
                old(self).entries@,
            ).push(
                BusEntryV {
                    device_id: slot@.device_id,
                    slot: slot@,
                    device: BusDeviceV::Serial,
                },
            ),
            r is Err ==> final(self).entries@ == old(self).entries@,
            final(self).mmio_base == old(self).mmio_base,
            final(self).irq_first == old(self).irq_first,
            final(self).irq_last == old(self).irq_last,
            old(self).wf() ==> final(self).wf(),
    {
        let device_id = slot.device_id.clone();
        self.register_mmio_device(device_id, slot, BusDevice::Serial)
    }

    /// Registers a default RTC device at a slot; its identifier is the
    /// slot's device identifier.
    pub fn register_mmio_rtc(&mut self, slot: MmioSlot) -> (r: Result<(), DeviceManagerError>)
        ensures
            r is Ok <==> old(self).spec_reg_ok(slot@),
            r is Ok ==> views_of_entries(final(self).entries@) == views_of_entries(
                old(self).entries@,
            ).push(
                BusEntryV { device_id: slot@.device_id, slot: slot@, device: BusDeviceV::Rtc },
            ),
            r is Err ==> final(self).entries@ == old(self).entries@,
            final(self).mmio_base == old(self).mmio_base,
            final(self).irq_first == old(self).irq_first,
            final(self).irq_last == old(self).irq_last,
            old(self).wf() ==> final(self).wf(),
    {
        let device_id = slot.device_id.clone();
        self.register_mmio_device(device_id, slot, BusDevice::Rtc)
    }

    /// Registers the ephemeral boot timer at a slot; the save traversal
    /// skips it.
    pub fn register_mmio_boot_timer(&mut self, slot: MmioSlot) -> (r: Result<
        (),
        DeviceManagerError,
    >)
        ensures
            r is Ok <==> old(self).spec_reg_ok(slot@),
            r is Ok ==> views_of_entries(final(self).entries@) == views_of_entries(
                old(self).entries@,
            ).push(
                BusEntryV {
                    device_id: slot@.device_id,
                    slot: slot@,
                    device: BusDeviceV::BootTimer,
                },
            ),
            r is Err ==> final(self).entries@ == old(self).entries@,
            final(self).mmio_base == old(self).mmio_base,
            final(self).irq_first == old(self).irq_first,
            final(self).irq_last == old(self).irq_last,
            old(self).wf() ==> final(self).wf(),
    {
        let device_id = slot.device_id.clone();
        self.register_mmio_device(device_id, slot, BusDevice::BootTimer)
    }
}

// ---------------------------------------------------------------------
// The save traversal, specification level: what each directory entry
// contributes to the emitted `DeviceStates`, and how the traversal leaves
// the entry behind.
// ---------------------------------------------------------------------

/// Legacy record a directory entry contributes.
pub open spec fn legacy_contrib(e: BusEntryV) -> Seq<ConnectedLegacyV> {
    match e.device {
        BusDeviceV::Serial => seq![
            ConnectedLegacyV { type_: LegacyDeviceKind::Serial, mmio_slot: e.slot },
        ],
        BusDeviceV::Rtc => seq![ConnectedLegacyV { type_: LegacyDeviceKind::Rtc, mmio_slot: e.slot }],
        _ => Seq::<ConnectedLegacyV>::empty(),
    }
}

/// Legacy records of a directory, in directory order.
pub open spec fn legacy_records(d: Seq<BusEntryV>) -> Seq<ConnectedLegacyV>
    decreases d.len(),
{
    if d.len() == 0 {
        Seq::<ConnectedLegacyV>::empty()
    } else {
        legacy_contrib(d[0]) + legacy_records(d.drop_first())
    }
}

/// Block record a directory entry contributes. The record carries the
/// metadata the traversal flushes out of flight right before capturing.
pub open spec fn block_contrib(e: BusEntryV) -> Seq<ConnectedBlockV> {
    match e.device {
        BusDeviceV::Virtio(t) => match t.device {
            VirtioDeviceV::Block(b) => seq![
                ConnectedBlockV {
                    device_id: e.device_id,
                    device_state: BlockState {
                        is_root_device: b.is_root_device,
                        is_read_only: b.is_read_only,
                        cache_type: b.cache_type,
                        flushed_metadata: b.pending_metadata,
                    },
                    transport_state: t.state,
                    mmio_slot: e.slot,
                },
            ],
            _ => Seq::<ConnectedBlockV>::empty(),
        },
        _ => Seq::<ConnectedBlockV>::empty(),
    }
}

/// Block records of a directory, in directory order.
pub open spec fn block_records(d: Seq<BusEntryV>) -> Seq<ConnectedBlockV>
    decreases d.len(),
{
    if d.len() == 0 {
        Seq::<ConnectedBlockV>::empty()
    } else {
        block_contrib(d[0]) + block_records(d.drop_first())
    }
}

/// Net record a directory entry contributes.
pub open spec fn net_contrib(e: BusEntryV) -> Seq<ConnectedNetV> {
    match e.device {
        BusDeviceV::Virtio(t) => match t.device {
            VirtioDeviceV::Net(n) => seq![
                ConnectedNetV {
                    device_id: e.device_id,
                    device_state: NetStateV {
                        host_dev_name: n.host_dev_name,
                        mmds_ns: match n.mmds_ns {
                            Some(ns) => Some(MmdsNetworkStackState { ipv4_addr: ns.ipv4_addr }),
                            None => None,
                        },
                    },
                    transport_state: t.state,
                    mmio_slot: e.slot,
                },
            ],
            _ => Seq::<ConnectedNetV>::empty(),
        },
        _ => Seq::<ConnectedNetV>::empty(),
    }
}

/// Net records of a directory, in directory order.
pub open spec fn net_records(d: Seq<BusEntryV>) -> Seq<ConnectedNetV>
    decreases d.len(),
{
    if d.len() == 0 {
        Seq::<ConnectedNetV>::empty()
    } else {
        net_contrib(d[0]) + net_records(d.drop_first())
    }
}

/// Balloon record a directory entry contributes.
pub open spec fn balloon_contrib(e: BusEntryV) -> Option<ConnectedBalloonV> {
    match e.device {
        BusDeviceV::Virtio(t) => match t.device {
            VirtioDeviceV::Balloon(b) => Some(
                ConnectedBalloonV {
                    device_id: e.device_id,
                    device_state: BalloonState {
                        amount_mib: b.amount_mib,
                        deflate_on_oom: b.deflate_on_oom,
                        stats_polling_interval_s: b.stats_polling_interval_s,
                    },
                    transport_state: t.state,
                    mmio_slot: e.slot,
                },
            ),
            _ => None,
        },
        _ => None,
    }
}

/// Balloon record of a directory: the record of the last balloon entry.
pub open spec fn balloon_record(d: Seq<BusEntryV>) -> Option<ConnectedBalloonV>
    decreases d.len(),
{
    if d.len() == 0 {
        None
    } else {
        match balloon_contrib(d.last()) {
            Some(r) => Some(r),
            None => balloon_record(d.drop_last()),
        }
    }
}

/// Vsock record a directory entry contributes.
pub open spec fn vsock_contrib(e: BusEntryV) -> Option<ConnectedVsockV> {
    match e.device {
        BusDeviceV::Virtio(t) => match t.device {
            VirtioDeviceV::Vsock(v) => Some(
                ConnectedVsockV {
                    device_id: e.device_id,
                    device_state: VsockStateV {
                        backend: crate::records::VsockBackendStateV {
                            uds_path: v.backend_uds_path,
                        },
                        frontend: VsockFrontendState { cid: v.cid },
                    },
                    transport_state: t.state,
                    mmio_slot: e.slot,
                },
            ),
            _ => None,
        },
        _ => None,
    }
}

/// Vsock record of a directory: the record of the last vsock entry.
pub open spec fn vsock_record(d: Seq<BusEntryV>) -> Option<ConnectedVsockV>
    decreases d.len(),
{
    if d.len() == 0 {
        None
    } else {
        match vsock_contrib(d.last()) {
            Some(r) => Some(r),
            None => vsock_record(d.drop_last()),
        }
    }
}

/// The MMDS version a directory entry lets the traversal capture.
pub open spec fn mmds_contrib(e: BusEntryV) -> Option<MmdsVersionState> {
    match e.device {
        BusDeviceV::Virtio(t) => match t.device {
            VirtioDeviceV::Net(n) => match n.mmds_ns {
                Some(ns) => Some(spec_state_from_version(ns.version)),
                None => None,
            },
            _ => None,
        },
        _ => None,
    }
}

/// The MMDS version the traversal captures: that of the first net entry
/// owning an MMDS namespace.
pub open spec fn mmds_captured(d: Seq<BusEntryV>) -> Option<MmdsVersionState>
    decreases d.len(),
{
    if d.len() == 0 {
        None
    } else {
        match mmds_contrib(d[0]) {
            Some(v) => Some(v),
            None => mmds_captured(d.drop_first()),
        }
    }
}

/// The `DeviceStates` the save traversal emits for a directory.
pub open spec fn save_spec(d: Seq<BusEntryV>) -> DeviceStatesV {
    DeviceStatesV {
        legacy_devices: legacy_records(d),
        block_devices: block_records(d),
        net_devices: net_records(d),
        vsock_device: vsock_record(d),
        balloon_device: balloon_record(d),
        mmds_version: mmds_captured(d),
    }
}

/// How the save traversal leaves one directory entry behind: a block
/// device has its in-flight metadata flushed; an activated vsock device
/// has exactly one transport-reset event queued; everything else is
/// untouched.
pub open spec fn quiesce_entry(e: BusEntryV) -> BusEntryV {
    match e.device {
        BusDeviceV::Virtio(t) => match t.device {
            VirtioDeviceV::Block(b) => BusEntryV {
                device_id: e.device_id,
                slot: e.slot,
                device: BusDeviceV::Virtio(
                    MmioTransportV {
                        state: t.state,
                        device: VirtioDeviceV::Block(
                            Block {
                                is_root_device: b.is_root_device,
                                is_read_only: b.is_read_only,
                                cache_type: b.cache_type,
                                pending_metadata: 0,
                                flushed_metadata: b.pending_metadata,
                            },
                        ),
                    },
                ),
            },
            VirtioDeviceV::Vsock(v) => BusEntryV {
                device_id: e.device_id,
                slot: e.slot,
                device: BusDeviceV::Virtio(
                    MmioTransportV {
                        state: t.state,
                        device: VirtioDeviceV::Vsock(
                            VsockV {
                                cid: v.cid,
                                backend_uds_path: v.backend_uds_path,
                                activated: v.activated,
                                transport_events: if v.activated {
                                    v.transport_events.push(
                                        crate::devices::VsockEvent::TransportReset,
                                    )
                                } else {
                                    v.transport_events
                                },
                            },
                        ),
                    },
                ),
            },
            _ => e,
        },
        _ => e,
    }
}

/// How the save traversal leaves the whole directory behind.
pub open spec fn quiesced(d: Seq<BusEntryV>) -> Seq<BusEntryV> {
    d.map_values(|e: BusEntryV| quiesce_entry(e))
}

/// Saving an activated vsock device queues exactly one transport-reset
/// event towards its frontend; saving a non-activated one queues none.
pub proof fn lemma_vsock_reset_on_save(e: BusEntryV, t: MmioTransportV, v: VsockV)
    requires
        e.device == BusDeviceV::Virtio(t),
        t.device == VirtioDeviceV::Vsock(v),
    ensures
        quiesce_entry(e).device matches BusDeviceV::Virtio(qt) && qt.device matches
            VirtioDeviceV::Vsock(qv) && qv.transport_events == (if v.activated {
            v.transport_events.push(crate::devices::VsockEvent::TransportReset)
        } else {
            v.transport_events
        }),
        v.activated ==> (quiesce_entry(e).device matches BusDeviceV::Virtio(qt) && qt.device
            matches VirtioDeviceV::Vsock(qv) && qv.transport_events.len()
            == v.transport_events.len() + 1),
{
}

proof fn lemma_legacy_records_snoc(d: Seq<BusEntryV>, e: BusEntryV)
    ensures
        legacy_records(d.push(e)) == legacy_records(d) + legacy_contrib(e),
    decreases d.len(),
{
    let p = d.push(e);
    if d.len() == 0 {
        assert(p.drop_first() =~= Seq::<BusEntryV>::empty());
        assert(p[0] == e);
        assert(legacy_records(p.drop_first()) == Seq::<ConnectedLegacyV>::empty());
        assert(legacy_records(p) =~= legacy_records(d) + legacy_contrib(e));
    } else {
        assert(p[0] == d[0]);
        assert(p.drop_first() =~= d.drop_first().push(e));
        lemma_legacy_records_snoc(d.drop_first(), e);
        assert(legacy_records(d) + legacy_contrib(e) =~= legacy_contrib(d[0]) + (legacy_records(
            d.drop_first(),
        ) + legacy_contrib(e)));
    }
}

proof fn lemma_block_records_snoc(d: Seq<BusEntryV>, e: BusEntryV)
    ensures
        block_records(d.push(e)) == block_records(d) + block_contrib(e),
    decreases d.len(),
{
    let p = d.push(e);
    if d.len() == 0 {
        assert(p.drop_first() =~= Seq::<BusEntryV>::empty());
        assert(p[0] == e);
        assert(block_records(p.drop_first()) == Seq::<ConnectedBlockV>::empty());
        assert(block_records(p) =~= block_records(d) + block_contrib(e));
    } else {
        assert(p[0] == d[0]);
        assert(p.drop_first() =~= d.drop_first().push(e));
        lemma_block_records_snoc(d.drop_first(), e);
        assert(block_records(d) + block_contrib(e) =~= block_contrib(d[0]) + (block_records(
            d.drop_first(),
        ) + block_contrib(e)));
    }
}

proof fn lemma_net_records_snoc(d: Seq<BusEntryV>, e: BusEntryV)
    ensures
        net_records(d.push(e)) == net_records(d) + net_contrib(e),
    decreases d.len(),
{
    let p = d.push(e);
    if d.len() == 0 {
        assert(p.drop_first() =~= Seq::<BusEntryV>::empty());
        assert(p[0] == e);
        assert(net_records(p.drop_first()) == Seq::<ConnectedNetV>::empty());
        assert(net_records(p) =~= net_records(d) + net_contrib(e));
    } else {
        assert(p[0] == d[0]);
        assert(p.drop_first() =~= d.drop_first().push(e));
        lemma_net_records_snoc(d.drop_first(), e);
        assert(net_records(d) + net_contrib(e) =~= net_contrib(d[0]) + (net_records(d.drop_first())
            + net_contrib(e)));
    }
}

proof fn lemma_balloon_record_snoc(d: Seq<BusEntryV>, e: BusEntryV)
    ensures
        balloon_record(d.push(e)) == (match balloon_contrib(e) {
            Some(r) => Some(r),
            None => balloon_record(d),
        }),
{
    let p = d.push(e);
    assert(p.drop_last() =~= d);
    assert(p.last() == e);
}

proof fn lemma_vsock_record_snoc(d: Seq<BusEntryV>, e: BusEntryV)
    ensures
        vsock_record(d.push(e)) == (match vsock_contrib(e) {
            Some(r) => Some(r),
            None => vsock_record(d),
        }),
{
    let p = d.push(e);
    assert(p.drop_last() =~= d);
    assert(p.last() == e);
}

proof fn lemma_mmds_captured_snoc(d: Seq<BusEntryV>, e: BusEntryV)
    ensures
        mmds_captured(d.push(e)) == (match mmds_captured(d) {
            Some(v) => Some(v),
            None => mmds_contrib(e),
        }),
    decreases d.len(),
{
    let p = d.push(e);
    if d.len() == 0 {
        assert(p.drop_first() =~= Seq::<BusEntryV>::empty());
        assert(p[0] == e);
        assert(mmds_captured(p.drop_first()) == None::<MmdsVersionState>);
    } else {
        assert(p[0] == d[0]);
        assert(p.drop_first() =~= d.drop_first().push(e));
        lemma_mmds_captured_snoc(d.drop_first(), e);
    }
}

/// Captures one directory entry into the states being assembled and
/// returns the entry as the traversal leaves it behind.
#[verifier::rlimit(100)]
#[verifier::spinoff_prover]
fn save_step(e: &BusEntry, states: &mut DeviceStates) -> (ne: BusEntry)
    ensures
        ne@ == quiesce_entry(e@),
        final(states)@.legacy_devices == old(states)@.legacy_devices + legacy_contrib(e@),
        final(states)@.block_devices == old(states)@.block_devices + block_contrib(e@),
        final(states)@.net_devices == old(states)@.net_devices + net_contrib(e@),
        final(states)@.vsock_device == (match vsock_contrib(e@) {
            Some(r) => Some(r),
            None => old(states)@.vsock_device,
        }),
        final(states)@.balloon_device == (match balloon_contrib(e@) {
            Some(r) => Some(r),
            None => old(states)@.balloon_device,
        }),
        final(states)@.mmds_version == (match old(states)@.mmds_version {
            Some(v) => Some(v),
            None => mmds_contrib(e@),
        }),
{
    let ghost ev = e@;
    match &e.device {
        BusDevice::BootTimer => {
            // The boot timer is ephemeral: nothing of it is saved.
            let ne = BusEntry {
                device_id: e.device_id.clone(),
                slot: e.slot.duplicate(),
                device: BusDevice::BootTimer,
            };
            proof {
                lemma_unchanged_concats(states@, ev);
            }
            ne
        },
        BusDevice::Serial => {
            states.legacy_devices.push(
                ConnectedLegacyState {
                    type_: LegacyDeviceKind::Serial,
                    mmio_slot: e.slot.duplicate(),
                },
            );
            let ne = BusEntry {
                device_id: e.device_id.clone(),
                slot: e.slot.duplicate(),
                device: BusDevice::Serial,
            };
            proof {
                assert(states@.legacy_devices =~= old(states)@.legacy_devices + legacy_contrib(ev));
                lemma_unchanged_concats(states@, ev);
            }
            ne
        },
        BusDevice::Rtc => {
            states.legacy_devices.push(
                ConnectedLegacyState { type_: LegacyDeviceKind::Rtc, mmio_slot: e.slot.duplicate() },
            );
            let ne = BusEntry {
                device_id: e.device_id.clone(),
                slot: e.slot.duplicate(),
                device: BusDevice::Rtc,
            };
            proof {
                assert(states@.legacy_devices =~= old(states)@.legacy_devices + legacy_contrib(ev));
                lemma_unchanged_concats(states@, ev);
            }
            ne
        },
        BusDevice::Virtio(t) => {
            let transport_state = t.save();
            match &t.device {
                VirtioDevice::Balloon(b) => {
                    let balloon_state = b.save();
                    states.balloon_device = Some(
                        ConnectedBalloonState {
                            device_id: e.device_id.clone(),
                            device_state: balloon_state,
                            transport_state,
                            mmio_slot: e.slot.duplicate(),
                        },
                    );
                    let ne = BusEntry {
                        device_id: e.device_id.clone(),
                        slot: e.slot.duplicate(),
                        device: BusDevice::Virtio(
                            MmioTransport { state: transport_state, device: VirtioDevice::Balloon(*b) },
                        ),
                    };
                    proof {
                        lemma_unchanged_concats(states@, ev);
                    }
                    ne
                },
                VirtioDevice::Block(b) => {
                    let mut nb = *b;
                    nb.prepare_save();
                    states.block_devices.push(
                        ConnectedBlockState {
                            device_id: e.device_id.clone(),
                            device_state: nb.save(),
                            transport_state,
                            mmio_slot: e.slot.duplicate(),
                        },
                    );
                    let ne = BusEntry {
                        device_id: e.device_id.clone(),
                        slot: e.slot.duplicate(),
                        device: BusDevice::Virtio(
                            MmioTransport { state: transport_state, device: VirtioDevice::Block(nb) },
                        ),
                    };
                    proof {
                        assert(states@.block_devices =~= old(states)@.block_devices + block_contrib(
                            ev,
                        ));
                        lemma_unchanged_concats(states@, ev);
                    }
                    ne
                },
                VirtioDevice::Net(n) => {
                    if n.mmds_ns.is_some() && states.mmds_version.is_none() {
                        let ns = n.mmds_ns.unwrap();
                        states.mmds_version = Some(MmdsVersionState::from(ns.version));
                    }
                    states.net_devices.push(
                        ConnectedNetState {
                            device_id: e.device_id.clone(),
                            device_state: n.save(),
                            transport_state,
                            mmio_slot: e.slot.duplicate(),
                        },
                    );
                    let ne = BusEntry {
                        device_id: e.device_id.clone(),
                        slot: e.slot.duplicate(),
                        device: BusDevice::Virtio(
                            MmioTransport { state: transport_state, device: VirtioDevice::Net(
                                n.duplicate(),
                            ) },
                        ),
                    };
                    proof {
                        assert(states@.net_devices =~= old(states)@.net_devices + net_contrib(ev));
                        lemma_unchanged_concats(states@, ev);
                    }
                    ne
                },
                VirtioDevice::Vsock(v) => {
                    let mut nv = v.duplicate();
                    let vsock_state = VsockState {
                        backend: nv.backend().save(),
                        frontend: nv.save(),
                    };
                    // Let the guest observe every vsock connection as torn
                    // down when it resumes from this snapshot.
                    if nv.is_activated() {
                        nv.send_transport_reset_event();
                    }
                    states.vsock_device = Some(
                        ConnectedVsockState {
                            device_id: e.device_id.clone(),
                            device_state: vsock_state,
                            transport_state,
                            mmio_slot: e.slot.duplicate(),
                        },
                    );
                    let ne = BusEntry {
                        device_id: e.device_id.clone(),
                        slot: e.slot.duplicate(),
                        device: BusDevice::Virtio(
                            MmioTransport { state: transport_state, device: VirtioDevice::Vsock(nv) },
                        ),
                    };
                    proof {
                        lemma_unchanged_concats(states@, ev);
                    }
                    ne
                },
            }
        },
    }
}

/// Concatenating an entry's empty contributions changes nothing.
proof fn lemma_unchanged_concats(s: DeviceStatesV, e: BusEntryV)
    ensures
        legacy_contrib(e).len() == 0 ==> s.legacy_devices + legacy_contrib(e) == s.legacy_devices,
        block_contrib(e).len() == 0 ==> s.block_devices + block_contrib(e) == s.block_devices,
        net_contrib(e).len() == 0 ==> s.net_devices + net_contrib(e) == s.net_devices,
{
    if legacy_contrib(e).len() == 0 {
        assert(s.legacy_devices + legacy_contrib(e) =~= s.legacy_devices);
    }
    if block_contrib(e).len() == 0 {
        assert(s.block_devices + block_contrib(e) =~= s.block_devices);
    }
    if net_contrib(e).len() == 0 {
        assert(s.net_devices + net_contrib(e) =~= s.net_devices);
    }
}

impl MMIODeviceManager {
    /// The save traversal: walks the quiesced directory and emits one
    /// record per device, skipping the ephemeral boot timer.
    ///
    /// The traversal leaves the directory quiesced behind it: every block
    /// device has its in-flight metadata flushed into its state, and every
    /// activated vsock device has exactly one transport-reset event queued
    /// towards its frontend, so that the guest observes its connections as
    /// torn down when it resumes.
    #[verifier::rlimit(100)]
    #[verifier::spinoff_prover]
    pub fn save(&mut self) -> (r: DeviceStates)
        ensures
            r@ == save_spec(views_of_entries(old(self).entries@)),
            views_of_entries(final(self).entries@) == quiesced(
                views_of_entries(old(self).entries@),
            ),
            final(self).mmio_base == old(self).mmio_base,
            final(self).irq_first == old(self).irq_first,
            final(self).irq_last == old(self).irq_last,
    {
        let ghost dv = views_of_entries(self.entries@);
        let mut states = DeviceStates {
            balloon_device: None,
            block_devices: Vec::new(),
            net_devices: Vec::new(),
            vsock_device: None,
            legacy_devices: Vec::new(),
            mmds_version: None,
        };
        let mut new_entries: Vec<BusEntry> = Vec::new();
        proof {
            assert(dv.take(0) =~= Seq::<BusEntryV>::empty());
            assert(states@ =~= save_spec(dv.take(0)));
            assert(views_of_entries(new_entries@) =~= quiesced(dv.take(0)));
        }
        let mut i: usize = 0;
        while i < self.entries.len()
            invariant
                i <= self.entries@.len(),
                self.entries@ == old(self).entries@,
                self.mmio_base == old(self).mmio_base,
                self.irq_first == old(self).irq_first,
                self.irq_last == old(self).irq_last,
                dv == views_of_entries(old(self).entries@),
                states@ == save_spec(dv.take(i as int)),
                views_of_entries(new_entries@) == quiesced(dv.take(i as int)),
            decreases self.entries@.len() - i,
        {
            let e = &self.entries[i];
            proof {
                assert(dv[i as int] == e@);
            }
            let ne = save_step(e, &mut states);
            new_entries.push(ne);
            proof {
                let prefix = dv.take(i as int);
                assert(dv.take(i as int + 1) =~= prefix.push(dv[i as int]));
                lemma_legacy_records_snoc(prefix, dv[i as int]);
                lemma_block_records_snoc(prefix, dv[i as int]);
                lemma_net_records_snoc(prefix, dv[i as int]);
                lemma_balloon_record_snoc(prefix, dv[i as int]);
                lemma_vsock_record_snoc(prefix, dv[i as int]);
                lemma_mmds_captured_snoc(prefix, dv[i as int]);
                assert(states@ =~= save_spec(dv.take(i as int + 1)));
                assert(quiesced(dv.take(i as int + 1)) =~= quiesced(prefix).push(
                    quiesce_entry(dv[i as int]),
                ));
                assert(views_of_entries(new_entries@) =~= quiesced(dv.take(i as int + 1)));
            }
            i = i + 1;
        }
        proof {
            assert(dv.take(dv.len() as int) =~= dv);
        }
        self.entries = new_entries;
        states
    }
}

// ---------------------------------------------------------------------
// The restore traversal, specification level: the directory entry each
// record rebuilds, the fixed order the registrations happen in, and the
// MMDS reconciliation rule.
// ---------------------------------------------------------------------

/// Entry a legacy record rebuilds: a default device at the recorded slot.
pub open spec fn restored_legacy_entry(c: ConnectedLegacyV) -> BusEntryV {
    BusEntryV {
        device_id: c.mmio_slot.device_id,
        slot: c.mmio_slot,
        device: match c.type_ {
            LegacyDeviceKind::Serial => BusDeviceV::Serial,
            LegacyDeviceKind::Rtc => BusDeviceV::Rtc,
        },
    }
}

pub open spec fn restored_legacy_entries(s: Seq<ConnectedLegacyV>) -> Seq<BusEntryV> {
    s.map_values(|c: ConnectedLegacyV| restored_legacy_entry(c))
}

/// Entry a balloon record rebuilds.
pub open spec fn restored_balloon_entry(c: ConnectedBalloonV) -> BusEntryV {
    BusEntryV {
        device_id: c.device_id,
        slot: c.mmio_slot,
        device: BusDeviceV::Virtio(
            MmioTransportV {
                state: c.transport_state,
                device: VirtioDeviceV::Balloon(
                    Balloon {
                        amount_mib: c.device_state.amount_mib,
                        deflate_on_oom: c.device_state.deflate_on_oom,
                        stats_polling_interval_s: c.device_state.stats_polling_interval_s,
                    },
                ),
            },
        ),
    }
}

pub open spec fn restored_balloon_entries(o: Option<ConnectedBalloonV>) -> Seq<BusEntryV> {
    match o {
        Some(c) => seq![restored_balloon_entry(c)],
        None => Seq::<BusEntryV>::empty(),
    }
}

/// Entry a block record rebuilds: a restored block device has no
/// in-flight metadata.
pub open spec fn restored_block_entry(c: ConnectedBlockV) -> BusEntryV {
    BusEntryV {
        device_id: c.device_id,
        slot: c.mmio_slot,
        device: BusDeviceV::Virtio(
            MmioTransportV {
                state: c.transport_state,
                device: VirtioDeviceV::Block(
                    Block {
                        is_root_device: c.device_state.is_root_device,
                        is_read_only: c.device_state.is_read_only,
                        cache_type: c.device_state.cache_type,
                        pending_metadata: 0,
                        flushed_metadata: c.device_state.flushed_metadata,
                    },
                ),
            },
        ),
    }
}

pub open spec fn restored_block_entries(s: Seq<ConnectedBlockV>) -> Seq<BusEntryV> {
    s.map_values(|c: ConnectedBlockV| restored_block_entry(c))
}

/// Entry a net record rebuilds: a namespace-owning device holds a clone
/// of the MMDS handle, so it carries the store version the reconciliation
/// step settled on.
pub open spec fn restored_net_entry(c: ConnectedNetV, version: MmdsVersion) -> BusEntryV {
    BusEntryV {
        device_id: c.device_id,
        slot: c.mmio_slot,
        device: BusDeviceV::Virtio(
            MmioTransportV {
                state: c.transport_state,
                device: VirtioDeviceV::Net(
                    NetV {
                        host_dev_name: c.device_state.host_dev_name,
                        mmds_ns: match c.device_state.mmds_ns {
                            Some(ns) => Some(
                                MmdsNetworkStack { ipv4_addr: ns.ipv4_addr, version },
                            ),
                            None => None,
                        },
                    },
                ),
            },
        ),
    }
}

pub open spec fn restored_net_entries(s: Seq<ConnectedNetV>, version: MmdsVersion) -> Seq<
    BusEntryV,
> {
    s.map_values(|c: ConnectedNetV| restored_net_entry(c, version))
}

/// Entry a vsock record rebuilds: backend first, frontend second; the
/// rebuilt device is not yet activated and has no queued events.
pub open spec fn restored_vsock_entry(c: ConnectedVsockV) -> BusEntryV {
    BusEntryV {
        device_id: c.device_id,
        slot: c.mmio_slot,
        device: BusDeviceV::Virtio(
            MmioTransportV {
                state: c.transport_state,
                device: VirtioDeviceV::Vsock(
                    VsockV {
                        cid: c.device_state.frontend.cid,
                        backend_uds_path: c.device_state.backend.uds_path,
                        activated: false,
                        transport_events: Seq::<crate::devices::VsockEvent>::empty(),
                    },
                ),
            },
        ),
    }
}

pub open spec fn restored_vsock_entries(o: Option<ConnectedVsockV>) -> Seq<BusEntryV> {
    match o {
        Some(c) => seq![restored_vsock_entry(c)],
        None => Seq::<BusEntryV>::empty(),
    }
}

/// The whole directory a snapshot rebuilds, in the fixed restore order:
/// legacy devices, balloon, block devices, net devices, vsock.
pub open spec fn restored_entries(s: DeviceStatesV, version: MmdsVersion) -> Seq<BusEntryV> {
    restored_legacy_entries(s.legacy_devices) + restored_balloon_entries(s.balloon_device)
        + restored_block_entries(s.block_devices) + restored_net_entries(s.net_devices, version)
        + restored_vsock_entries(s.vsock_device)
}

/// The slots a snapshot asks to register, in restore order.
pub open spec fn restore_slots(s: DeviceStatesV) -> Seq<MmioSlotV> {
    entry_slots(restored_entries(s, MmdsVersion::V1))
}

/// Whether the slot at position `i` is admissible: inside the window and
/// IRQ range, and in collision with none of the slots before it.
pub open spec fn slot_admissible(
    base: u64,
    irq_first: u32,
    irq_last: u32,
    slots: Seq<MmioSlotV>,
    i: int,
) -> bool {
    &&& slot_in_cfg(base, irq_first, irq_last, slots[i])
    &&& forall|j: int| 0 <= j < i ==> !slots_conflict(#[trigger] slots[j], slots[i])
}

/// Whether a sequence of registrations goes through in order.
pub open spec fn slots_accept(base: u64, irq_first: u32, irq_last: u32, slots: Seq<MmioSlotV>) -> bool {
    forall|i: int| 0 <= i < slots.len() ==> #[trigger] slot_admissible(base, irq_first, irq_last, slots, i)
}

/// Whether some net record declares an MMDS namespace.
pub open spec fn any_net_has_ns(s: Seq<ConnectedNetV>) -> bool {
    exists|i: int| 0 <= i < s.len() && (#[trigger] s[i].device_state.mmds_ns) is Some
}

/// The MMDS store after the reconciliation step of restore.
///
/// A persisted version is authoritative. A snapshot from before the
/// version field that still restores a namespace-owning net device gets
/// the default store, so the device does not hold a dangling reference.
/// Otherwise no store is initialized.
pub open spec fn mmds_after(
    s: DeviceStatesV,
    old_mmds: Option<MmdsV>,
    instance_id: Seq<char>,
) -> Option<MmdsV> {
    match s.mmds_version {
        Some(v) => Some(MmdsV { version: spec_version_from_state(v), instance_id }),
        None => if any_net_has_ns(s.net_devices) {
            match old_mmds {
                Some(m) => Some(m),
                None => Some(
                    MmdsV { version: MmdsVersion::V1, instance_id: Seq::<char>::empty() },
                ),
            }
        } else {
            old_mmds
        },
    }
}

/// The store version behind an optional MMDS store value.
pub open spec fn version_of_opt_mmds(m: Option<MmdsV>) -> MmdsVersion {
    match m {
        Some(x) => x.version,
        None => MmdsVersion::V1,
    }
}

/// Block configurations mirrored into the VMM resources, in order.
pub open spec fn block_states_of(s: Seq<ConnectedBlockV>) -> Seq<BlockState> {
    s.map_values(|c: ConnectedBlockV| c.device_state)
}

/// Net configurations mirrored into the VMM resources, in order.
pub open spec fn net_states_of(s: Seq<ConnectedNetV>) -> Seq<NetStateV> {
    s.map_values(|c: ConnectedNetV| c.device_state)
}

/// Block device identifiers, in order.
pub open spec fn block_ids_of(s: Seq<ConnectedBlockV>) -> Seq<Seq<char>> {
    s.map_values(|c: ConnectedBlockV| c.device_id)
}

/// Net device identifiers, in order.
pub open spec fn net_ids_of(s: Seq<ConnectedNetV>) -> Seq<Seq<char>> {
    s.map_values(|c: ConnectedNetV| c.device_id)
}

/// The device identifiers restore subscribes to the event manager, in
/// subscription order. Legacy devices are not event subscribers.
pub open spec fn restored_subscriber_ids(s: DeviceStatesV) -> Seq<Seq<char>> {
    (match s.balloon_device {
        Some(c) => seq![c.device_id],
        None => Seq::<Seq<char>>::empty(),
    }) + block_ids_of(s.block_devices) + net_ids_of(s.net_devices) + (match s.vsock_device {
        Some(c) => seq![c.device_id],
        None => Seq::<Seq<char>>::empty(),
    })
}

/// At the `k`-th registration of the restore traversal, the manager's own
/// acceptance condition coincides with admissibility of the `k`-th slot
/// in the recorded order.
proof fn lemma_admissible_bridge(
    pre: MMIODeviceManager,
    regs: Seq<MmioSlotV>,
    k: int,
    slot: MmioSlotV,
)
    requires
        pre.mmio_base == MMIO_MEM_START,
        pre.irq_first == IRQ_BASE,
        pre.irq_last == IRQ_MAX,
        0 <= k,
        k == pre.entries@.len(),
        k < regs.len(),
        regs[k] == slot,
        forall|j: int|
            0 <= j < k ==> (#[trigger] views_of_entries(pre.entries@)[j]).slot == regs[j],
    ensures
        pre.spec_reg_ok(slot) <==> slot_admissible(MMIO_MEM_START, IRQ_BASE, IRQ_MAX, regs, k),
{
    if pre.spec_reg_ok(slot) {
        assert forall|j: int| 0 <= j < k implies !slots_conflict(#[trigger] regs[j], regs[k]) by {
            assert(views_of_entries(pre.entries@)[j] == pre.entries@[j]@);
            assert(!slots_conflict(pre.entries@[j]@.slot, slot));
        }
        assert(slot_admissible(MMIO_MEM_START, IRQ_BASE, IRQ_MAX, regs, k));
    }
    if slot_admissible(MMIO_MEM_START, IRQ_BASE, IRQ_MAX, regs, k) {
        assert forall|i: int|
            0 <= i < pre.entries@.len() implies !slots_conflict(
            #[trigger] pre.entries@[i]@.slot,
            slot,
        ) by {
            assert(views_of_entries(pre.entries@)[i] == pre.entries@[i]@);
            assert(!slots_conflict(regs[i], regs[k]));
        }
        assert(pre.spec_reg_ok(slot));
    }
}

/// Constructor arguments of the restore traversal.
///
/// The guest memory must already be mapped with the layout it had at save
/// time; the instance identifier scopes the restored MMDS store.
#[derive(Debug)]
pub struct MMIODevManagerConstructorArgs {
    pub mem: GuestMemoryHandle,
    pub instance_id: String,
}

/// One step of the restore traversal shared by every virtio device: the
/// slot sanity check, the transport reconstruction, the registration in
/// the directory, and the event subscription.
fn restore_helper(
    dev_manager: &mut MMIODeviceManager,
    mem: &GuestMemoryHandle,
    device: VirtioDevice,
    device_id: String,
    transport_state: &MmioTransportState,
    slot: MmioSlot,
    event_manager: &mut EventManager,
) -> (r: Result<(), Error>)
    ensures
        r is Ok <==> old(dev_manager).spec_reg_ok(slot@),
        r is Ok ==> views_of_entries(final(dev_manager).entries@) == views_of_entries(
            old(dev_manager).entries@,
        ).push(
            BusEntryV {
                device_id: device_id@,
                slot: slot@,
                device: BusDeviceV::Virtio(
                    MmioTransportV { state: *transport_state, device: device@ },
                ),
            },
        ),
        r is Ok ==> subscriber_ids(final(event_manager).subscribers@) == subscriber_ids(
            old(event_manager).subscribers@,
        ).push(device_id@),
        r is Err ==> final(dev_manager).entries@ == old(dev_manager).entries@
            && final(event_manager).subscribers@ == old(event_manager).subscribers@,
        r matches Err(e) ==> e matches Error::DeviceManager(_),
        final(dev_manager).mmio_base == old(dev_manager).mmio_base,
        final(dev_manager).irq_first == old(dev_manager).irq_first,
        final(dev_manager).irq_last == old(dev_manager).irq_last,
        old(dev_manager).wf() ==> final(dev_manager).wf(),
{
    match dev_manager.slot_sanity_check(&slot) {
        Ok(()) => {},
        Err(e) => {
            return Err(Error::DeviceManager(e));
        },
    }
    let mmio_transport = MmioTransport::restore(mem, device, transport_state);
    let subscriber_id = device_id.clone();
    match dev_manager.register_mmio_virtio(device_id, mmio_transport, slot) {
        Ok(()) => {},
        Err(e) => {
            return Err(Error::DeviceManager(e));
        },
    }
    event_manager.add_subscriber(subscriber_id);
    proof {
        assert(subscriber_ids(event_manager.subscribers@) =~= subscriber_ids(
            old(event_manager).subscribers@,
        ).push(device_id@));
    }
    Ok(())
}

/// Whether any net record of the vector declares an MMDS namespace.
fn any_net_declares_mmds(nets: &Vec<ConnectedNetState>) -> (r: bool)
    ensures
        r == any_net_has_ns(crate::records::views_of_nets(nets@)),
{
    let ghost nv = crate::records::views_of_nets(nets@);
    let mut found = false;
    let mut i: usize = 0;
    while i < nets.len()
        invariant
            i <= nets@.len(),
            nv == crate::records::views_of_nets(nets@),
            found <==> exists|k: int|
                0 <= k < i && (#[trigger] nv[k].device_state.mmds_ns) is Some,
        decreases nets@.len() - i,
    {
        if nets[i].device_state.mmds_ns.is_some() {
            proof {
                assert(nv[i as int].device_state.mmds_ns is Some);
            }
            found = true;
        }
        i = i + 1;
    }
    found
}

impl MMIODeviceManager {
    /// The restore traversal: rebuilds the directory from a snapshot, in
    /// the fixed order legacy devices, balloon, block devices, MMDS
    /// reconciliation, net devices, vsock.
    ///
    /// Every rebuilt device is mirrored into the VMM resources and
    /// subscribed to the event manager. The traversal succeeds exactly
    /// when every recorded slot passes the sanity check against the
    /// devices registered before it; the first slot that does not stops
    /// it with a device-manager error.
    #[verifier::rlimit(100)]
    #[verifier::spinoff_prover]
    pub fn restore(
        constructor_args: &MMIODevManagerConstructorArgs,
        state: &DeviceStates,
        vm_resources: &mut VmResources,
        event_manager: &mut EventManager,
    ) -> (r: Result<MMIODeviceManager, Error>)
        ensures
            ({
                let sv = state@;
                let regs = restore_slots(sv);
                let ma = mmds_after(sv, old(vm_resources)@.mmds, constructor_args.instance_id@);
                let va = version_of_opt_mmds(ma);
                &&& (r is Ok <==> slots_accept(MMIO_MEM_START, IRQ_BASE, IRQ_MAX, regs))
                &&& (r matches Ok(m) ==> {
                    &&& m.mmio_base == MMIO_MEM_START
                    &&& m.irq_first == IRQ_BASE
                    &&& m.irq_last == IRQ_MAX
                    &&& views_of_entries(m.entries@) == restored_entries(sv, va)
                    &&& m.wf()
                    &&& final(vm_resources)@.mmds == ma
                    &&& final(vm_resources)@.balloon == (match sv.balloon_device {
                        Some(c) => Some(c.device_state),
                        None => old(vm_resources)@.balloon,
                    })
                    &&& final(vm_resources)@.block_configs == old(vm_resources)@.block_configs
                        + block_states_of(sv.block_devices)
                    &&& final(vm_resources)@.net_configs == old(vm_resources)@.net_configs
                        + net_states_of(sv.net_devices)
                    &&& final(vm_resources)@.vsock == (match sv.vsock_device {
                        Some(c) => Some(c.device_state),
                        None => old(vm_resources)@.vsock,
                    })
                    &&& subscriber_ids(final(event_manager).subscribers@) == subscriber_ids(
                        old(event_manager).subscribers@,
                    ) + restored_subscriber_ids(sv)
                })
                &&& (r matches Err(e) ==> e matches Error::DeviceManager(_))
            }),
    {
        let ghost sv = state@;
        let ghost regs = restore_slots(sv);
        let ghost n_legacy = sv.legacy_devices.len() as int;
        let ghost n_bal = restored_balloon_entries(sv.balloon_device).len() as int;
        let ghost n_blocks = sv.block_devices.len() as int;
        let ghost n_nets = sv.net_devices.len() as int;
        let ghost re1 = restored_entries(sv, MmdsVersion::V1);
        let mem = &constructor_args.mem;
        let mut dev_manager = MMIODeviceManager::new(MMIO_MEM_START, (IRQ_BASE, IRQ_MAX));
        proof {
            assert(regs.len() == re1.len());
            assert(re1.len() == n_legacy + n_bal + n_blocks + n_nets + restored_vsock_entries(
                sv.vsock_device,
            ).len());
            assert(views_of_entries(dev_manager.entries@) =~= Seq::<BusEntryV>::empty());
            assert(restored_legacy_entries(sv.legacy_devices.take(0)) =~= Seq::<BusEntryV>::empty());
        }

        // Legacy devices are idempotent relative to virtio devices and come
        // first, for symmetry with boot.
        let mut i: usize = 0;
        while i < state.legacy_devices.len()
            invariant
                i <= n_legacy,
                n_legacy == sv.legacy_devices.len(),
                sv == state@,
                regs == restore_slots(sv),
                re1 == restored_entries(sv, MmdsVersion::V1),
                dev_manager.mmio_base == MMIO_MEM_START,
                dev_manager.irq_first == IRQ_BASE,
                dev_manager.irq_last == IRQ_MAX,
                dev_manager.wf(),
                views_of_entries(dev_manager.entries@) == restored_legacy_entries(
                    sv.legacy_devices.take(i as int),
                ),
                forall|j: int|
                    0 <= j < dev_manager.entries@.len() ==> (#[trigger] views_of_entries(
                        dev_manager.entries@,
                    )[j]).slot == regs[j],
                forall|j: int|
                    0 <= j < dev_manager.entries@.len() ==> #[trigger] slot_admissible(
                        MMIO_MEM_START,
                        IRQ_BASE,
                        IRQ_MAX,
                        regs,
                        j,
                    ),
                *vm_resources == *old(vm_resources),
                *event_manager == *old(event_manager),
            decreases n_legacy - i,
        {
            let ghost k = dev_manager.entries@.len() as int;
            let ghost cv = sv.legacy_devices[i as int];
            proof {
                assert(views_of_entries(dev_manager.entries@).len() == dev_manager.entries@.len());
                assert(restored_legacy_entries(sv.legacy_devices.take(i as int)).len() == i);
                assert(k == i);
                assert(re1[i as int] == restored_legacy_entries(sv.legacy_devices)[i as int]);
                assert(restored_legacy_entries(sv.legacy_devices)[i as int]
                    == restored_legacy_entry(cv));
                assert(regs[i as int] == cv.mmio_slot);
            }
            let c = &state.legacy_devices[i];
            proof {
                assert(c@ == cv);
            }
            let slot = c.mmio_slot.duplicate();
            let ghost pre_dm = dev_manager;
            proof {
                assert(k < regs.len());
            }
            let reg_result = match c.type_ {
                LegacyDeviceKind::Serial => dev_manager.register_mmio_serial(slot),
                LegacyDeviceKind::Rtc => dev_manager.register_mmio_rtc(slot),
            };
            match reg_result {
                Ok(()) => {},
                Err(e) => {
                    proof {
                        lemma_admissible_bridge(pre_dm, regs, k, cv.mmio_slot);
                        assert(!slot_admissible(MMIO_MEM_START, IRQ_BASE, IRQ_MAX, regs, k));
                        assert(!slots_accept(MMIO_MEM_START, IRQ_BASE, IRQ_MAX, regs)) by {
                            if slots_accept(MMIO_MEM_START, IRQ_BASE, IRQ_MAX, regs) {
                                assert(slot_admissible(MMIO_MEM_START, IRQ_BASE, IRQ_MAX, regs, k));
                            }
                        }
                    }
                    return Err(Error::DeviceManager(e));
                },
            }
            proof {
                lemma_admissible_bridge(pre_dm, regs, k, cv.mmio_slot);
                assert(sv.legacy_devices.take(i as int + 1) =~= sv.legacy_devices.take(
                    i as int,
                ).push(cv));
                assert(restored_legacy_entries(sv.legacy_devices.take(i as int + 1))
                    =~= restored_legacy_entries(sv.legacy_devices.take(i as int)).push(
                    restored_legacy_entry(cv),
                ));
                assert(views_of_entries(dev_manager.entries@) =~= restored_legacy_entries(
                    sv.legacy_devices.take(i as int + 1),
                ));
                assert(slot_admissible(MMIO_MEM_START, IRQ_BASE, IRQ_MAX, regs, k));
                assert(dev_manager.entries@.len() == views_of_entries(
                    dev_manager.entries@,
                ).len());
                assert(views_of_entries(pre_dm.entries@).len() == pre_dm.entries@.len());
                assert forall|j: int|
                    0 <= j < views_of_entries(dev_manager.entries@).len() implies (
                #[trigger] views_of_entries(dev_manager.entries@)[j]).slot == regs[j] by {
                    if j < k {
                        assert(views_of_entries(dev_manager.entries@)[j] == views_of_entries(
                            pre_dm.entries@,
                        )[j]);
                    } else {
                        assert(views_of_entries(dev_manager.entries@)[j].slot == cv.mmio_slot);
                    }
                }
            }
            i = i + 1;
        }
        proof {
            assert(sv.legacy_devices.take(n_legacy) =~= sv.legacy_devices);
            assert(views_of_entries(dev_manager.entries@) + restored_balloon_entries(
                sv.balloon_device,
            ).take(0) =~= views_of_entries(dev_manager.entries@));
        }

        // Balloon, before the block devices, as at boot.
        if let Some(balloon_rec) = &state.balloon_device {
            let ghost cv = sv.balloon_device->Some_0;
            proof {
                assert(balloon_rec@ == cv);
                assert(re1[n_legacy] == restored_balloon_entry(cv));
                assert(regs[n_legacy] == cv.mmio_slot);
            }
            let ghost k = dev_manager.entries@.len() as int;
            proof {
                assert(k == n_legacy);
                assert(k < regs.len());
            }
            let device = Balloon::restore(mem, &balloon_rec.device_state);
            vm_resources.update_from_restored_device(SharedDeviceType::SharedBalloon(device));
            let ghost pre_dm = dev_manager;
            let helper_result = restore_helper(
                &mut dev_manager,
                mem,
                VirtioDevice::Balloon(device),
                balloon_rec.device_id.clone(),
                &balloon_rec.transport_state,
                balloon_rec.mmio_slot.duplicate(),
                event_manager,
            );
            match helper_result {
                Ok(()) => {},
                Err(e) => {
                    proof {
                        lemma_admissible_bridge(pre_dm, regs, k, cv.mmio_slot);
                        assert(!slot_admissible(MMIO_MEM_START, IRQ_BASE, IRQ_MAX, regs, k));
                        assert(!slots_accept(MMIO_MEM_START, IRQ_BASE, IRQ_MAX, regs)) by {
                            if slots_accept(MMIO_MEM_START, IRQ_BASE, IRQ_MAX, regs) {
                                assert(slot_admissible(MMIO_MEM_START, IRQ_BASE, IRQ_MAX, regs, k));
                            }
                        }
                    }
                    return Err(e);
                },
            }
            proof {
                lemma_admissible_bridge(pre_dm, regs, k, cv.mmio_slot);
                assert(views_of_entries(dev_manager.entries@) =~= restored_legacy_entries(
                    sv.legacy_devices,
                ) + restored_balloon_entries(sv.balloon_device));
                assert(slot_admissible(MMIO_MEM_START, IRQ_BASE, IRQ_MAX, regs, k));
                assert(dev_manager.entries@.len() == views_of_entries(
                    dev_manager.entries@,
                ).len());
                assert(views_of_entries(pre_dm.entries@).len() == pre_dm.entries@.len());
                assert forall|j: int|
                    0 <= j < views_of_entries(dev_manager.entries@).len() implies (
                #[trigger] views_of_entries(dev_manager.entries@)[j]).slot == regs[j] by {
                    if j < k {
                        assert(views_of_entries(dev_manager.entries@)[j] == views_of_entries(
                            pre_dm.entries@,
                        )[j]);
                    } else {
                        assert(views_of_entries(dev_manager.entries@)[j].slot == cv.mmio_slot);
                    }
                }
                assert(subscriber_ids(event_manager.subscribers@) =~= subscriber_ids(
                    old(event_manager).subscribers@,
                ) + restored_subscriber_ids(sv).take(1));
            }
        } else {
            proof {
                assert(views_of_entries(dev_manager.entries@) =~= restored_legacy_entries(
                    sv.legacy_devices,
                ) + restored_balloon_entries(sv.balloon_device));
                assert(subscriber_ids(event_manager.subscribers@) =~= subscriber_ids(
                    old(event_manager).subscribers@,
                ) + restored_subscriber_ids(sv).take(0));
            }
        }
        let ghost ids_done_bal = n_bal;

        // Block devices, in snapshot order, so guest-visible indexing is
        // stable across the snapshot.
        let mut i: usize = 0;
        while i < state.block_devices.len()
            invariant
                i <= n_blocks,
                n_legacy == sv.legacy_devices.len(),
                n_bal == restored_balloon_entries(sv.balloon_device).len(),
                n_blocks == sv.block_devices.len(),
                ids_done_bal == n_bal,
                sv == state@,
                regs == restore_slots(sv),
                re1 == restored_entries(sv, MmdsVersion::V1),
                dev_manager.mmio_base == MMIO_MEM_START,
                dev_manager.irq_first == IRQ_BASE,
                dev_manager.irq_last == IRQ_MAX,
                dev_manager.wf(),
                dev_manager.entries@.len() == n_legacy + n_bal + i,
                views_of_entries(dev_manager.entries@) == restored_legacy_entries(
                    sv.legacy_devices,
                ) + restored_balloon_entries(sv.balloon_device) + restored_block_entries(
                    sv.block_devices.take(i as int),
                ),
                forall|j: int|
                    0 <= j < dev_manager.entries@.len() ==> (#[trigger] views_of_entries(
                        dev_manager.entries@,
                    )[j]).slot == regs[j],
                forall|j: int|
                    0 <= j < dev_manager.entries@.len() ==> #[trigger] slot_admissible(
                        MMIO_MEM_START,
                        IRQ_BASE,
                        IRQ_MAX,
                        regs,
                        j,
                    ),
                vm_resources@.mmds == old(vm_resources)@.mmds,
                vm_resources@.balloon == (match sv.balloon_device {
                    Some(c) => Some(c.device_state),
                    None => old(vm_resources)@.balloon,
                }),
                vm_resources@.block_configs == old(vm_resources)@.block_configs + block_states_of(
                    sv.block_devices.take(i as int),
                ),
                vm_resources@.net_configs == old(vm_resources)@.net_configs,
                vm_resources@.vsock == old(vm_resources)@.vsock,
                subscriber_ids(event_manager.subscribers@) == subscriber_ids(
                    old(event_manager).subscribers@,
                ) + restored_subscriber_ids(sv).take(n_bal + i),
            decreases n_blocks - i,
        {
            let ghost k = dev_manager.entries@.len() as int;
            let ghost cv = sv.block_devices[i as int];
            proof {
                assert(re1[k] == restored_block_entries(sv.block_devices)[i as int]);
                assert(restored_block_entries(sv.block_devices)[i as int] == restored_block_entry(
                    cv,
                ));
                assert(regs[k] == cv.mmio_slot);
                assert(restored_subscriber_ids(sv)[n_bal + i] == cv.device_id);
            }
            let c = &state.block_devices[i];
            proof {
                assert(c@ == cv);
            }
            proof {
                assert(k < regs.len());
            }
            let device = Block::restore(mem, &c.device_state);
            vm_resources.update_from_restored_device(SharedDeviceType::SharedBlock(device));
            let ghost pre_dm = dev_manager;
            proof {
                assert(block_states_of(sv.block_devices.take(i as int + 1)) =~= block_states_of(
                    sv.block_devices.take(i as int),
                ).push(cv.device_state));
                assert(vm_resources@.block_configs =~= old(vm_resources)@.block_configs
                    + block_states_of(sv.block_devices.take(i as int + 1)));
            }
            let helper_result = restore_helper(
                &mut dev_manager,
                mem,
                VirtioDevice::Block(device),
                c.device_id.clone(),
                &c.transport_state,
                c.mmio_slot.duplicate(),
                event_manager,
            );
            match helper_result {
                Ok(()) => {},
                Err(e) => {
                    proof {
                        lemma_admissible_bridge(pre_dm, regs, k, cv.mmio_slot);
                        assert(!slot_admissible(MMIO_MEM_START, IRQ_BASE, IRQ_MAX, regs, k));
                        assert(!slots_accept(MMIO_MEM_START, IRQ_BASE, IRQ_MAX, regs)) by {
                            if slots_accept(MMIO_MEM_START, IRQ_BASE, IRQ_MAX, regs) {
                                assert(slot_admissible(MMIO_MEM_START, IRQ_BASE, IRQ_MAX, regs, k));
                            }
                        }
                    }
                    return Err(e);
                },
            }
            proof {
                assert(sv.block_devices.take(i as int + 1) =~= sv.block_devices.take(
                    i as int,
                ).push(cv));
                assert(restored_block_entries(sv.block_devices.take(i as int + 1))
                    =~= restored_block_entries(sv.block_devices.take(i as int)).push(
                    restored_block_entry(cv),
                ));
                lemma_admissible_bridge(pre_dm, regs, k, cv.mmio_slot);
                assert(views_of_entries(dev_manager.entries@) =~= restored_legacy_entries(
                    sv.legacy_devices,
                ) + restored_balloon_entries(sv.balloon_device) + restored_block_entries(
                    sv.block_devices.take(i as int + 1),
                ));
                assert(slot_admissible(MMIO_MEM_START, IRQ_BASE, IRQ_MAX, regs, k));
                assert(dev_manager.entries@.len() == views_of_entries(
                    dev_manager.entries@,
                ).len());
                assert(views_of_entries(pre_dm.entries@).len() == pre_dm.entries@.len());
                assert forall|j: int|
                    0 <= j < views_of_entries(dev_manager.entries@).len() implies (
                #[trigger] views_of_entries(dev_manager.entries@)[j]).slot == regs[j] by {
                    if j < k {
                        assert(views_of_entries(dev_manager.entries@)[j] == views_of_entries(
                            pre_dm.entries@,
                        )[j]);
                    } else {
                        assert(views_of_entries(dev_manager.entries@)[j].slot == cv.mmio_slot);
                    }
                }
                assert(restored_subscriber_ids(sv).take(n_bal + i + 1) =~= restored_subscriber_ids(
                    sv,
                ).take(n_bal + i).push(cv.device_id));
                assert(subscriber_ids(event_manager.subscribers@) =~= subscriber_ids(
                    old(event_manager).subscribers@,
                ) + restored_subscriber_ids(sv).take(n_bal + i + 1));
            }
            i = i + 1;
        }
        proof {
            assert(sv.block_devices.take(n_blocks) =~= sv.block_devices);
        }

        // MMDS version reconciliation: it must happen before any net
        // device is constructed, because a net device may hold a clone of
        // the MMDS handle.
        if state.mmds_version.is_some() {
            let version_state = match &state.mmds_version {
                Some(v) => *v,
                None => MmdsVersionState::V1,
            };
            vm_resources.set_mmds_version(
                MmdsVersion::from(version_state),
                constructor_args.instance_id.as_str(),
            );
        } else {
            let has_ns = any_net_declares_mmds(&state.net_devices);
            if has_ns {
                // A legacy snapshot with a namespace-owning net device:
                // initialize the store with its default version.
                vm_resources.mmds_or_default();
            }
        }
        let ghost ma = mmds_after(sv, old(vm_resources)@.mmds, constructor_args.instance_id@);
        let ghost va = version_of_opt_mmds(ma);
        proof {
            assert(vm_resources@.mmds == ma);
        }

        // Net devices, in snapshot order, each handed the MMDS store the
        // reconciliation step settled on.
        let mut i: usize = 0;
        while i < state.net_devices.len()
            invariant
                i <= n_nets,
                n_legacy == sv.legacy_devices.len(),
                n_bal == restored_balloon_entries(sv.balloon_device).len(),
                n_blocks == sv.block_devices.len(),
                n_nets == sv.net_devices.len(),
                ids_done_bal == n_bal,
                sv == state@,
                regs == restore_slots(sv),
                re1 == restored_entries(sv, MmdsVersion::V1),
                ma == mmds_after(sv, old(vm_resources)@.mmds, constructor_args.instance_id@),
                va == version_of_opt_mmds(ma),
                dev_manager.mmio_base == MMIO_MEM_START,
                dev_manager.irq_first == IRQ_BASE,
                dev_manager.irq_last == IRQ_MAX,
                dev_manager.wf(),
                dev_manager.entries@.len() == n_legacy + n_bal + n_blocks + i,
                views_of_entries(dev_manager.entries@) == restored_legacy_entries(
                    sv.legacy_devices,
                ) + restored_balloon_entries(sv.balloon_device) + restored_block_entries(
                    sv.block_devices,
                ) + restored_net_entries(sv.net_devices.take(i as int), va),
                forall|j: int|
                    0 <= j < dev_manager.entries@.len() ==> (#[trigger] views_of_entries(
                        dev_manager.entries@,
                    )[j]).slot == regs[j],
                forall|j: int|
                    0 <= j < dev_manager.entries@.len() ==> #[trigger] slot_admissible(
                        MMIO_MEM_START,
                        IRQ_BASE,
                        IRQ_MAX,
                        regs,
                        j,
                    ),
                vm_resources@.mmds == ma,
                vm_resources@.balloon == (match sv.balloon_device {
                    Some(c) => Some(c.device_state),
                    None => old(vm_resources)@.balloon,
                }),
                vm_resources@.block_configs == old(vm_resources)@.block_configs + block_states_of(
                    sv.block_devices,
                ),
                vm_resources@.net_configs == old(vm_resources)@.net_configs + net_states_of(
                    sv.net_devices.take(i as int),
                ),
                vm_resources@.vsock == old(vm_resources)@.vsock,
                subscriber_ids(event_manager.subscribers@) == subscriber_ids(
                    old(event_manager).subscribers@,
                ) + restored_subscriber_ids(sv).take(n_bal + n_blocks + i),
            decreases n_nets - i,
        {
            let ghost k = dev_manager.entries@.len() as int;
            let ghost cv = sv.net_devices[i as int];
            proof {
                assert(re1[k] == restored_net_entries(sv.net_devices, MmdsVersion::V1)[i as int]);
                assert(restored_net_entries(sv.net_devices, MmdsVersion::V1)[i as int]
                    == restored_net_entry(cv, MmdsVersion::V1));
                assert(regs[k] == cv.mmio_slot);
                assert(restored_subscriber_ids(sv)[n_bal + n_blocks + i] == cv.device_id);
            }
            let c = &state.net_devices[i];
            proof {
                assert(c@ == cv);
            }
            proof {
                assert(k < regs.len());
            }
            let device = Net::restore(mem, vm_resources.mmds.as_ref(), &c.device_state);
            proof {
                assert(device@ =~= (match restored_net_entry(cv, va).device {
                    BusDeviceV::Virtio(t) => match t.device {
                        VirtioDeviceV::Net(n) => n,
                        _ => device@,
                    },
                    _ => device@,
                }));
            }
            let shared = device.duplicate();
            vm_resources.update_from_restored_device(SharedDeviceType::SharedNetwork(shared));
            proof {
                assert(net_states_of(sv.net_devices.take(i as int + 1)) =~= net_states_of(
                    sv.net_devices.take(i as int),
                ).push(cv.device_state));
                assert(vm_resources@.net_configs =~= old(vm_resources)@.net_configs + net_states_of(
                    sv.net_devices.take(i as int + 1),
                ));
            }
            let ghost pre_dm = dev_manager;
            let helper_result = restore_helper(
                &mut dev_manager,
                mem,
                VirtioDevice::Net(device),
                c.device_id.clone(),
                &c.transport_state,
                c.mmio_slot.duplicate(),
                event_manager,
            );
            match helper_result {
                Ok(()) => {},
                Err(e) => {
                    proof {
                        lemma_admissible_bridge(pre_dm, regs, k, cv.mmio_slot);
                        assert(!slot_admissible(MMIO_MEM_START, IRQ_BASE, IRQ_MAX, regs, k));
                        assert(!slots_accept(MMIO_MEM_START, IRQ_BASE, IRQ_MAX, regs)) by {
                            if slots_accept(MMIO_MEM_START, IRQ_BASE, IRQ_MAX, regs) {
                                assert(slot_admissible(MMIO_MEM_START, IRQ_BASE, IRQ_MAX, regs, k));
                            }
                        }
                    }
                    return Err(e);
                },
            }
            proof {
                assert(sv.net_devices.take(i as int + 1) =~= sv.net_devices.take(i as int).push(
                    cv,
                ));
                assert(restored_net_entries(sv.net_devices.take(i as int + 1), va)
                    =~= restored_net_entries(sv.net_devices.take(i as int), va).push(
                    restored_net_entry(cv, va),
                ));
                lemma_admissible_bridge(pre_dm, regs, k, cv.mmio_slot);
                assert(views_of_entries(dev_manager.entries@) =~= restored_legacy_entries(
                    sv.legacy_devices,
                ) + restored_balloon_entries(sv.balloon_device) + restored_block_entries(
                    sv.block_devices,
                ) + restored_net_entries(sv.net_devices.take(i as int + 1), va));
                assert(slot_admissible(MMIO_MEM_START, IRQ_BASE, IRQ_MAX, regs, k));
                assert(dev_manager.entries@.len() == views_of_entries(
                    dev_manager.entries@,
                ).len());
                assert(views_of_entries(pre_dm.entries@).len() == pre_dm.entries@.len());
                assert forall|j: int|
                    0 <= j < views_of_entries(dev_manager.entries@).len() implies (
                #[trigger] views_of_entries(dev_manager.entries@)[j]).slot == regs[j] by {
                    if j < k {
                        assert(views_of_entries(dev_manager.entries@)[j] == views_of_entries(
                            pre_dm.entries@,
                        )[j]);
                    } else {
                        assert(views_of_entries(dev_manager.entries@)[j].slot == cv.mmio_slot);
                    }
                }
                assert(restored_subscriber_ids(sv).take(n_bal + n_blocks + i + 1)
                    =~= restored_subscriber_ids(sv).take(n_bal + n_blocks + i).push(cv.device_id));
                assert(subscriber_ids(event_manager.subscribers@) =~= subscriber_ids(
                    old(event_manager).subscribers@,
                ) + restored_subscriber_ids(sv).take(n_bal + n_blocks + i + 1));
            }
            i = i + 1;
        }
        proof {
            assert(sv.net_devices.take(n_nets) =~= sv.net_devices);
        }

        // Vsock last: backend first, then the frontend over it.
        if let Some(vsock_rec) = &state.vsock_device {
            let ghost cv = sv.vsock_device->Some_0;
            let ghost k = dev_manager.entries@.len() as int;
            proof {
                assert(vsock_rec@ == cv);
                assert(re1[k] == restored_vsock_entry(cv));
                assert(regs[k] == cv.mmio_slot);
                assert(restored_subscriber_ids(sv)[n_bal + n_blocks + n_nets] == cv.device_id);
            }
            proof {
                assert(k < regs.len());
            }
            let backend = VsockUnixBackend::restore(
                vsock_rec.device_state.frontend.cid,
                &vsock_rec.device_state.backend,
            );
            let device = Vsock::restore(mem, backend, &vsock_rec.device_state.frontend);
            let shared = device.duplicate();
            vm_resources.update_from_restored_device(SharedDeviceType::SharedVsock(shared));
            proof {
                assert(vm_resources@.vsock == Some(cv.device_state));
            }
            let ghost pre_dm = dev_manager;
            let helper_result = restore_helper(
                &mut dev_manager,
                mem,
                VirtioDevice::Vsock(device),
                vsock_rec.device_id.clone(),
                &vsock_rec.transport_state,
                vsock_rec.mmio_slot.duplicate(),
                event_manager,
            );
            match helper_result {
                Ok(()) => {},
                Err(e) => {
                    proof {
                        lemma_admissible_bridge(pre_dm, regs, k, cv.mmio_slot);
                        assert(!slot_admissible(MMIO_MEM_START, IRQ_BASE, IRQ_MAX, regs, k));
                        assert(!slots_accept(MMIO_MEM_START, IRQ_BASE, IRQ_MAX, regs)) by {
                            if slots_accept(MMIO_MEM_START, IRQ_BASE, IRQ_MAX, regs) {
                                assert(slot_admissible(MMIO_MEM_START, IRQ_BASE, IRQ_MAX, regs, k));
                            }
                        }
                    }
                    return Err(e);
                },
            }
            proof {
                lemma_admissible_bridge(pre_dm, regs, k, cv.mmio_slot);
                assert(views_of_entries(dev_manager.entries@) =~= restored_entries(sv, va));
                assert(slot_admissible(MMIO_MEM_START, IRQ_BASE, IRQ_MAX, regs, k));
                assert(dev_manager.entries@.len() == views_of_entries(
                    dev_manager.entries@,
                ).len());
                assert(views_of_entries(pre_dm.entries@).len() == pre_dm.entries@.len());
                assert forall|j: int|
                    0 <= j < views_of_entries(dev_manager.entries@).len() implies (
                #[trigger] views_of_entries(dev_manager.entries@)[j]).slot == regs[j] by {
                    if j < k {
                        assert(views_of_entries(dev_manager.entries@)[j] == views_of_entries(
                            pre_dm.entries@,
                        )[j]);
                    } else {
                        assert(views_of_entries(dev_manager.entries@)[j].slot == cv.mmio_slot);
                    }
                }
                assert(restored_subscriber_ids(sv).take(n_bal + n_blocks + n_nets + 1)
                    =~= restored_subscriber_ids(sv).take(n_bal + n_blocks + n_nets).push(
                    cv.device_id,
                ));
                assert(restored_subscriber_ids(sv).take(n_bal + n_blocks + n_nets + 1)
                    =~= restored_subscriber_ids(sv));
                assert(subscriber_ids(event_manager.subscribers@) =~= subscriber_ids(
                    old(event_manager).subscribers@,
                ) + restored_subscriber_ids(sv));
            }
        } else {
            proof {
                assert(restored_vsock_entries(sv.vsock_device) =~= Seq::<BusEntryV>::empty());
                assert(views_of_entries(dev_manager.entries@) =~= restored_entries(sv, va));
                assert(restored_subscriber_ids(sv).take(n_bal + n_blocks + n_nets)
                    =~= restored_subscriber_ids(sv));
            }
        }

        proof {
            assert(dev_manager.entries@.len() == re1.len());
            assert(regs.len() == re1.len());
            assert forall|j: int| 0 <= j < regs.len() implies #[trigger] slot_admissible(
                MMIO_MEM_START,
                IRQ_BASE,
                IRQ_MAX,
                regs,
                j,
            ) by {
                assert(0 <= j < dev_manager.entries@.len());
            }
            assert(slots_accept(MMIO_MEM_START, IRQ_BASE, IRQ_MAX, regs));
        }
        Ok(dev_manager)
    }
}

// ---------------------------------------------------------------------
// Laws of the save/restore pair.
// ---------------------------------------------------------------------

/// The (device identifier, slot) pairs of a directory, in order.
pub open spec fn id_slot_pairs(d: Seq<BusEntryV>) -> Seq<(Seq<char>, MmioSlotV)> {
    d.map_values(|e: BusEntryV| (e.device_id, e.slot))
}

/// A directory of supported kinds, as the save/restore pair expects it:
/// no ephemeral boot timer, legacy devices registered under their slot's
/// identifier, and at most one balloon and one vsock device.
pub open spec fn supported_directory(d: Seq<BusEntryV>) -> bool {
    &&& forall|i: int| 0 <= i < d.len() ==> !((#[trigger] d[i].device) is BootTimer)
    &&& forall|i: int|
        0 <= i < d.len() ==> ((d[i].device is Serial || d[i].device is Rtc) ==> (
        #[trigger] d[i].device_id) == d[i].slot.device_id)
    &&& forall|i: int, j: int|
        0 <= i < j < d.len() ==> !((#[trigger] balloon_contrib(d[i])) is Some && (
        #[trigger] balloon_contrib(d[j])) is Some)
    &&& forall|i: int, j: int|
        0 <= i < j < d.len() ==> !((#[trigger] vsock_contrib(d[i])) is Some && (
        #[trigger] vsock_contrib(d[j])) is Some)
}

proof fn lemma_pairs_of_concat(a: Seq<BusEntryV>, b: Seq<BusEntryV>)
    ensures
        id_slot_pairs(a + b) == id_slot_pairs(a) + id_slot_pairs(b),
        entry_slots(a + b) == entry_slots(a) + entry_slots(b),
{
    assert(id_slot_pairs(a + b) =~= id_slot_pairs(a) + id_slot_pairs(b));
    assert(entry_slots(a + b) =~= entry_slots(a) + entry_slots(b));
}

proof fn lemma_no_balloon_entry_no_record(d: Seq<BusEntryV>)
    requires
        forall|i: int| 0 <= i < d.len() ==> (#[trigger] balloon_contrib(d[i])) is None,
    ensures
        balloon_record(d) is None,
    decreases d.len(),
{
    if d.len() > 0 {
        assert(balloon_contrib(d.last()) is None);
        assert forall|i: int|
            0 <= i < d.drop_last().len() implies (#[trigger] balloon_contrib(
            d.drop_last()[i],
        )) is None by {
            assert(d.drop_last()[i] == d[i]);
        }
        lemma_no_balloon_entry_no_record(d.drop_last());
    }
}

proof fn lemma_no_vsock_entry_no_record(d: Seq<BusEntryV>)
    requires
        forall|i: int| 0 <= i < d.len() ==> (#[trigger] vsock_contrib(d[i])) is None,
    ensures
        vsock_record(d) is None,
    decreases d.len(),
{
    if d.len() > 0 {
        assert(vsock_contrib(d.last()) is None);
        assert forall|i: int|
            0 <= i < d.drop_last().len() implies (#[trigger] vsock_contrib(
            d.drop_last()[i],
        )) is None by {
            assert(d.drop_last()[i] == d[i]);
        }
        lemma_no_vsock_entry_no_record(d.drop_last());
    }
}

/// The restored directory's pairs, grouped: concatenation distributes
/// both projections over the five restore groups.
proof fn lemma_restored_groups(s: DeviceStatesV, v: MmdsVersion)
    ensures
        id_slot_pairs(restored_entries(s, v)).to_multiset() == id_slot_pairs(
            restored_legacy_entries(s.legacy_devices),
        ).to_multiset().add(
            id_slot_pairs(restored_balloon_entries(s.balloon_device)).to_multiset(),
        ).add(id_slot_pairs(restored_block_entries(s.block_devices)).to_multiset()).add(
            id_slot_pairs(restored_net_entries(s.net_devices, v)).to_multiset(),
        ).add(id_slot_pairs(restored_vsock_entries(s.vsock_device)).to_multiset()),
        entry_slots(restored_entries(s, v)).to_multiset() == entry_slots(
            restored_legacy_entries(s.legacy_devices),
        ).to_multiset().add(
            entry_slots(restored_balloon_entries(s.balloon_device)).to_multiset(),
        ).add(entry_slots(restored_block_entries(s.block_devices)).to_multiset()).add(
            entry_slots(restored_net_entries(s.net_devices, v)).to_multiset(),
        ).add(entry_slots(restored_vsock_entries(s.vsock_device)).to_multiset()),
{
    broadcast use vstd::seq_lib::lemma_multiset_commutative;

    let g1 = restored_legacy_entries(s.legacy_devices);
    let g2 = restored_balloon_entries(s.balloon_device);
    let g3 = restored_block_entries(s.block_devices);
    let g4 = restored_net_entries(s.net_devices, v);
    let g5 = restored_vsock_entries(s.vsock_device);
    lemma_pairs_of_concat(g1, g2);
    lemma_pairs_of_concat(g1 + g2, g3);
    lemma_pairs_of_concat(g1 + g2 + g3, g4);
    lemma_pairs_of_concat(g1 + g2 + g3 + g4, g5);
}

/// Restoring what save emitted preserves the multiset of (identifier,
/// slot) pairs, and likewise the multiset of slots.
proof fn lemma_round_trip_ms(d: Seq<BusEntryV>, v: MmdsVersion)
    requires
        supported_directory(d),
    ensures
        id_slot_pairs(restored_entries(save_spec(d), v)).to_multiset() == id_slot_pairs(
            d,
        ).to_multiset(),
        entry_slots(restored_entries(save_spec(d), v)).to_multiset() == entry_slots(
            d,
        ).to_multiset(),
    decreases d.len(),
{
    broadcast use vstd::seq_lib::group_to_multiset_ensures;
    broadcast use vstd::multiset::group_multiset_axioms;

    if d.len() == 0 {
        assert(restored_legacy_entries(legacy_records(d)) =~= Seq::<BusEntryV>::empty());
        assert(restored_block_entries(block_records(d)) =~= Seq::<BusEntryV>::empty());
        assert(restored_net_entries(net_records(d), v) =~= Seq::<BusEntryV>::empty());
        assert(restored_entries(save_spec(d), v) =~= Seq::<BusEntryV>::empty());
        assert(id_slot_pairs(restored_entries(save_spec(d), v)) =~= Seq::<
            (Seq<char>, MmioSlotV),
        >::empty());
        assert(id_slot_pairs(d) =~= Seq::<(Seq<char>, MmioSlotV)>::empty());
        assert(entry_slots(restored_entries(save_spec(d), v)) =~= Seq::<MmioSlotV>::empty());
        assert(entry_slots(d) =~= Seq::<MmioSlotV>::empty());
    } else {
        let d0 = d.drop_last();
        let e = d.last();
        assert(d0.push(e) =~= d);
        assert forall|i: int| 0 <= i < d0.len() implies !((#[trigger] d0[i].device)
            is BootTimer) by {
            assert(d0[i] == d[i]);
        }
        assert forall|i: int|
            0 <= i < d0.len() implies ((d0[i].device is Serial || d0[i].device is Rtc) ==> (
        #[trigger] d0[i].device_id) == d0[i].slot.device_id) by {
            assert(d0[i] == d[i]);
        }
        assert forall|i: int, j: int|
            0 <= i < j < d0.len() implies !((#[trigger] balloon_contrib(d0[i])) is Some && (
        #[trigger] balloon_contrib(d0[j])) is Some) by {
            assert(d0[i] == d[i]);
            assert(d0[j] == d[j]);
        }
        assert forall|i: int, j: int|
            0 <= i < j < d0.len() implies !((#[trigger] vsock_contrib(d0[i])) is Some && (
        #[trigger] vsock_contrib(d0[j])) is Some) by {
            assert(d0[i] == d[i]);
            assert(d0[j] == d[j]);
        }
        lemma_round_trip_ms(d0, v);
        lemma_legacy_records_snoc(d0, e);
        lemma_block_records_snoc(d0, e);
        lemma_net_records_snoc(d0, e);
        lemma_balloon_record_snoc(d0, e);
        lemma_vsock_record_snoc(d0, e);
        lemma_mmds_captured_snoc(d0, e);
        let s0 = save_spec(d0);
        let s1 = save_spec(d);
        lemma_restored_groups(s0, v);
        lemma_restored_groups(s1, v);
        let p = (e.device_id, e.slot);
        assert(id_slot_pairs(d) =~= id_slot_pairs(d0).push(p));
        assert(entry_slots(d) =~= entry_slots(d0).push(e.slot));
        match e.device {
            BusDeviceV::BootTimer => {
                assert(false);
            },
            BusDeviceV::Serial => {
                let rec = ConnectedLegacyV { type_: LegacyDeviceKind::Serial, mmio_slot: e.slot };
                let x = restored_legacy_entry(rec);
                assert(x.device_id == e.device_id);
                assert(s1.legacy_devices =~= s0.legacy_devices.push(rec));
                assert(restored_legacy_entries(s1.legacy_devices) =~= restored_legacy_entries(
                    s0.legacy_devices,
                ).push(x));
                assert(id_slot_pairs(restored_legacy_entries(s1.legacy_devices))
                    =~= id_slot_pairs(restored_legacy_entries(s0.legacy_devices)).push(p));
                assert(entry_slots(restored_legacy_entries(s1.legacy_devices)) =~= entry_slots(
                    restored_legacy_entries(s0.legacy_devices),
                ).push(e.slot));
                assert(s1.block_devices =~= s0.block_devices);
                assert(s1.net_devices =~= s0.net_devices);
                assert(s1.balloon_device == s0.balloon_device);
                assert(s1.vsock_device == s0.vsock_device);
                assert(id_slot_pairs(restored_entries(s1, v)).to_multiset() =~= id_slot_pairs(
                    d,
                ).to_multiset());
                assert(entry_slots(restored_entries(s1, v)).to_multiset() =~= entry_slots(
                    d,
                ).to_multiset());
            },
            BusDeviceV::Rtc => {
                let rec = ConnectedLegacyV { type_: LegacyDeviceKind::Rtc, mmio_slot: e.slot };
                let x = restored_legacy_entry(rec);
                assert(x.device_id == e.device_id);
                assert(s1.legacy_devices =~= s0.legacy_devices.push(rec));
                assert(restored_legacy_entries(s1.legacy_devices) =~= restored_legacy_entries(
                    s0.legacy_devices,
                ).push(x));
                assert(id_slot_pairs(restored_legacy_entries(s1.legacy_devices))
                    =~= id_slot_pairs(restored_legacy_entries(s0.legacy_devices)).push(p));
                assert(entry_slots(restored_legacy_entries(s1.legacy_devices)) =~= entry_slots(
                    restored_legacy_entries(s0.legacy_devices),
                ).push(e.slot));
                assert(s1.block_devices =~= s0.block_devices);
                assert(s1.net_devices =~= s0.net_devices);
                assert(s1.balloon_device == s0.balloon_device);
                assert(s1.vsock_device == s0.vsock_device);
                assert(id_slot_pairs(restored_entries(s1, v)).to_multiset() =~= id_slot_pairs(
                    d,
                ).to_multiset());
                assert(entry_slots(restored_entries(s1, v)).to_multiset() =~= entry_slots(
                    d,
                ).to_multiset());
            },
            BusDeviceV::Virtio(t) => match t.device {
                VirtioDeviceV::Balloon(_) => {
                    let rec = balloon_contrib(e)->Some_0;
                    let x = restored_balloon_entry(rec);
                    assert(x.device_id == e.device_id && x.slot == e.slot);
                    assert forall|i: int|
                        0 <= i < d0.len() implies (#[trigger] balloon_contrib(
                        d0[i],
                    )) is None by {
                        assert(d0[i] == d[i]);
                        assert(balloon_contrib(d[d.len() - 1]) is Some);
                    }
                    lemma_no_balloon_entry_no_record(d0);
                    assert(s0.balloon_device is None);
                    assert(s1.balloon_device == Some(rec));
                    assert(restored_balloon_entries(s1.balloon_device)
                        =~= restored_balloon_entries(s0.balloon_device).push(x));
                    assert(id_slot_pairs(restored_balloon_entries(s1.balloon_device))
                        =~= id_slot_pairs(restored_balloon_entries(s0.balloon_device)).push(p));
                    assert(entry_slots(restored_balloon_entries(s1.balloon_device))
                        =~= entry_slots(restored_balloon_entries(s0.balloon_device)).push(e.slot));
                    assert(s1.legacy_devices =~= s0.legacy_devices);
                    assert(s1.block_devices =~= s0.block_devices);
                    assert(s1.net_devices =~= s0.net_devices);
                    assert(s1.vsock_device == s0.vsock_device);
                    assert(id_slot_pairs(restored_entries(s1, v)).to_multiset() =~= id_slot_pairs(
                        d,
                    ).to_multiset());
                    assert(entry_slots(restored_entries(s1, v)).to_multiset() =~= entry_slots(
                        d,
                    ).to_multiset());
                },
                VirtioDeviceV::Block(_) => {
                    let rec = block_contrib(e)[0];
                    let x = restored_block_entry(rec);
                    assert(x.device_id == e.device_id && x.slot == e.slot);
                    assert(s1.block_devices =~= s0.block_devices.push(rec));
                    assert(restored_block_entries(s1.block_devices) =~= restored_block_entries(
                        s0.block_devices,
                    ).push(x));
                    assert(id_slot_pairs(restored_block_entries(s1.block_devices))
                        =~= id_slot_pairs(restored_block_entries(s0.block_devices)).push(p));
                    assert(entry_slots(restored_block_entries(s1.block_devices)) =~= entry_slots(
                        restored_block_entries(s0.block_devices),
                    ).push(e.slot));
                    assert(s1.legacy_devices =~= s0.legacy_devices);
                    assert(s1.net_devices =~= s0.net_devices);
                    assert(s1.balloon_device == s0.balloon_device);
                    assert(s1.vsock_device == s0.vsock_device);
                    assert(id_slot_pairs(restored_entries(s1, v)).to_multiset() =~= id_slot_pairs(
                        d,
                    ).to_multiset());
                    assert(entry_slots(restored_entries(s1, v)).to_multiset() =~= entry_slots(
                        d,
                    ).to_multiset());
                },
                VirtioDeviceV::Net(_) => {
                    let rec = net_contrib(e)[0];
                    let x = restored_net_entry(rec, v);
                    assert(x.device_id == e.device_id && x.slot == e.slot);
                    assert(s1.net_devices =~= s0.net_devices.push(rec));
                    assert(restored_net_entries(s1.net_devices, v) =~= restored_net_entries(
                        s0.net_devices,
                        v,
                    ).push(x));
                    assert(id_slot_pairs(restored_net_entries(s1.net_devices, v))
                        =~= id_slot_pairs(restored_net_entries(s0.net_devices, v)).push(p));
                    assert(entry_slots(restored_net_entries(s1.net_devices, v)) =~= entry_slots(
                        restored_net_entries(s0.net_devices, v),
                    ).push(e.slot));
                    assert(s1.legacy_devices =~= s0.legacy_devices);
                    assert(s1.block_devices =~= s0.block_devices);
                    assert(s1.balloon_device == s0.balloon_device);
                    assert(s1.vsock_device == s0.vsock_device);
                    assert(id_slot_pairs(restored_entries(s1, v)).to_multiset() =~= id_slot_pairs(
                        d,
                    ).to_multiset());
                    assert(entry_slots(restored_entries(s1, v)).to_multiset() =~= entry_slots(
                        d,
                    ).to_multiset());
                },
                VirtioDeviceV::Vsock(_) => {
                    let rec = vsock_contrib(e)->Some_0;
                    let x = restored_vsock_entry(rec);
                    assert(x.device_id == e.device_id && x.slot == e.slot);
                    assert forall|i: int|
                        0 <= i < d0.len() implies (#[trigger] vsock_contrib(d0[i])) is None by {
                        assert(d0[i] == d[i]);
                        assert(vsock_contrib(d[d.len() - 1]) is Some);
                    }
                    lemma_no_vsock_entry_no_record(d0);
                    assert(s0.vsock_device is None);
                    assert(s1.vsock_device == Some(rec));
                    assert(restored_vsock_entries(s1.vsock_device) =~= restored_vsock_entries(
                        s0.vsock_device,
                    ).push(x));
                    assert(id_slot_pairs(restored_vsock_entries(s1.vsock_device))
                        =~= id_slot_pairs(restored_vsock_entries(s0.vsock_device)).push(p));
                    assert(entry_slots(restored_vsock_entries(s1.vsock_device)) =~= entry_slots(
                        restored_vsock_entries(s0.vsock_device),
                    ).push(e.slot));
                    assert(s1.legacy_devices =~= s0.legacy_devices);
                    assert(s1.block_devices =~= s0.block_devices);
                    assert(s1.net_devices =~= s0.net_devices);
                    assert(s1.balloon_device == s0.balloon_device);
                    assert(id_slot_pairs(restored_entries(s1, v)).to_multiset() =~= id_slot_pairs(
                        d,
                    ).to_multiset());
                    assert(entry_slots(restored_entries(s1, v)).to_multiset() =~= entry_slots(
                        d,
                    ).to_multiset());
                },
            },
        }
    }
}

/// Round-trip identity of slots: a supported directory whose slots all
/// lie in the platform window and collide pairwise nowhere can be saved
/// and restored, and the rebuilt directory carries the same multiset of
/// (device identifier, slot) pairs as the original.
pub proof fn lemma_save_restore_round_trip(d: Seq<BusEntryV>, v: MmdsVersion)
    requires
        supported_directory(d),
        forall|i: int|
            0 <= i < d.len() ==> slot_in_cfg(
                MMIO_MEM_START,
                IRQ_BASE,
                IRQ_MAX,
                (#[trigger] d[i]).slot,
            ),
        forall|i: int, j: int|
            0 <= i < j < d.len() ==> !slots_conflict(
                (#[trigger] d[i]).slot,
                (#[trigger] d[j]).slot,
            ),
    ensures
        slots_accept(MMIO_MEM_START, IRQ_BASE, IRQ_MAX, restore_slots(save_spec(d))),
        id_slot_pairs(restored_entries(save_spec(d), v)).to_multiset() == id_slot_pairs(
            d,
        ).to_multiset(),
{
    broadcast use vstd::seq_lib::group_to_multiset_ensures;
    broadcast use vstd::multiset::group_multiset_axioms;

    lemma_round_trip_ms(d, v);
    lemma_round_trip_ms(d, MmdsVersion::V1);
    let rs = restore_slots(save_spec(d));
    let ds = entry_slots(d);
    assert(rs.to_multiset() == ds.to_multiset());
    assert(ds.no_duplicates()) by {
        assert forall|i: int, j: int|
            0 <= i < ds.len() && 0 <= j < ds.len() && i != j implies ds[i] != ds[j] by {
            if i < j {
                assert(!slots_conflict(d[i].slot, d[j].slot));
            } else {
                assert(!slots_conflict(d[j].slot, d[i].slot));
            }
        }
    }
    ds.lemma_multiset_has_no_duplicates();
    assert forall|x: MmioSlotV| rs.to_multiset().contains(x) implies rs.to_multiset().count(x)
        == 1 by {
        assert(ds.to_multiset().contains(x));
    }
    rs.lemma_multiset_has_no_duplicates_conv();
    assert forall|k: int| 0 <= k < rs.len() implies #[trigger] slot_admissible(
        MMIO_MEM_START,
        IRQ_BASE,
        IRQ_MAX,
        rs,
        k,
    ) by {
        assert(rs.to_multiset().contains(rs[k]));
        assert(ds.to_multiset().contains(rs[k]));
        assert(ds.contains(rs[k]));
        let i2 = choose|i2: int| 0 <= i2 < ds.len() && ds[i2] == rs[k];
        assert(slot_in_cfg(MMIO_MEM_START, IRQ_BASE, IRQ_MAX, d[i2].slot));
        assert forall|j: int| 0 <= j < k implies !slots_conflict(#[trigger] rs[j], rs[k]) by {
            assert(rs[j] != rs[k]);
            assert(rs.to_multiset().contains(rs[j]));
            assert(ds.contains(rs[j]));
            let i1 = choose|i1: int| 0 <= i1 < ds.len() && ds[i1] == rs[j];
            assert(i1 != i2);
            if i1 < i2 {
                assert(!slots_conflict(d[i1].slot, d[i2].slot));
            } else {
                assert(!slots_conflict(d[i2].slot, d[i1].slot));
            }
        }
    }
}

proof fn lemma_block_records_concat(a: Seq<BusEntryV>, b: Seq<BusEntryV>)
    ensures
        block_records(a + b) == block_records(a) + block_records(b),
    decreases a.len(),
{
    if a.len() == 0 {
        assert(a + b =~= b);
        assert(block_records(a) + block_records(b) =~= block_records(b));
    } else {
        assert((a + b)[0] == a[0]);
        assert((a + b).drop_first() =~= a.drop_first() + b);
        lemma_block_records_concat(a.drop_first(), b);
        assert(block_records(a) + block_records(b) =~= block_contrib(a[0]) + (block_records(
            a.drop_first(),
        ) + block_records(b)));
    }
}

proof fn lemma_block_records_none(g: Seq<BusEntryV>)
    requires
        forall|i: int| 0 <= i < g.len() ==> (#[trigger] block_contrib(g[i])).len() == 0,
    ensures
        block_records(g) == Seq::<ConnectedBlockV>::empty(),
    decreases g.len(),
{
    if g.len() > 0 {
        assert(block_contrib(g[0]).len() == 0);
        assert forall|i: int|
            0 <= i < g.drop_first().len() implies (#[trigger] block_contrib(
            g.drop_first()[i],
        )).len() == 0 by {
            assert(g.drop_first()[i] == g[i + 1]);
        }
        lemma_block_records_none(g.drop_first());
        assert(block_records(g) =~= Seq::<ConnectedBlockV>::empty());
    }
}

proof fn lemma_block_records_of_restored_blocks(s: Seq<ConnectedBlockV>)
    ensures
        block_ids_of(block_records(restored_block_entries(s))) == block_ids_of(s),
    decreases s.len(),
{
    let g = restored_block_entries(s);
    if s.len() == 0 {
        assert(g =~= Seq::<BusEntryV>::empty());
        assert(block_ids_of(block_records(g)) =~= block_ids_of(s));
    } else {
        assert(g[0] == restored_block_entry(s[0]));
        assert(g.drop_first() =~= restored_block_entries(s.drop_first()));
        lemma_block_records_of_restored_blocks(s.drop_first());
        assert(block_contrib(g[0])[0].device_id == s[0].device_id);
        let rest = block_records(g.drop_first());
        assert(block_records(g) == block_contrib(g[0]) + rest);
        assert(block_ids_of(block_contrib(g[0]) + rest) =~= block_ids_of(block_contrib(g[0]))
            + block_ids_of(rest));
        assert(block_ids_of(block_contrib(g[0])) =~= seq![s[0].device_id]);
        assert(block_ids_of(s) =~= seq![s[0].device_id] + block_ids_of(s.drop_first()));
        assert(block_ids_of(block_records(g)) =~= block_ids_of(s));
    }
}

/// Block ordering: the directory rebuilt from a saved snapshot carries,
/// in insertion order, the same sequence of block device identifiers as
/// the directory the snapshot was saved from.
pub proof fn lemma_block_order_round_trip(d: Seq<BusEntryV>, v: MmdsVersion)
    ensures
        block_ids_of(block_records(restored_entries(save_spec(d), v))) == block_ids_of(
            block_records(d),
        ),
{
    let s = save_spec(d);
    let g1 = restored_legacy_entries(s.legacy_devices);
    let g2 = restored_balloon_entries(s.balloon_device);
    let g3 = restored_block_entries(s.block_devices);
    let g4 = restored_net_entries(s.net_devices, v);
    let g5 = restored_vsock_entries(s.vsock_device);
    lemma_block_records_concat(g1, g2);
    lemma_block_records_concat(g1 + g2, g3);
    lemma_block_records_concat(g1 + g2 + g3, g4);
    lemma_block_records_concat(g1 + g2 + g3 + g4, g5);
    assert forall|i: int| 0 <= i < g1.len() implies (#[trigger] block_contrib(g1[i])).len()
        == 0 by {
        assert(g1[i] == restored_legacy_entry(s.legacy_devices[i]));
    }
    lemma_block_records_none(g1);
    assert forall|i: int| 0 <= i < g2.len() implies (#[trigger] block_contrib(g2[i])).len()
        == 0 by {
        assert(g2[i] == restored_balloon_entry(s.balloon_device->Some_0));
    }
    lemma_block_records_none(g2);
    assert forall|i: int| 0 <= i < g4.len() implies (#[trigger] block_contrib(g4[i])).len()
        == 0 by {
        assert(g4[i] == restored_net_entry(s.net_devices[i], v));
    }
    lemma_block_records_none(g4);
    assert forall|i: int| 0 <= i < g5.len() implies (#[trigger] block_contrib(g5[i])).len()
        == 0 by {
        assert(g5[i] == restored_vsock_entry(s.vsock_device->Some_0));
    }
    lemma_block_records_none(g5);
    lemma_block_records_of_restored_blocks(s.block_devices);
    assert(block_records(restored_entries(s, v)) =~= block_records(g3));
    assert(block_ids_of(block_records(restored_entries(s, v))) =~= block_ids_of(
        block_records(d),
    ));
}

} // verus!
