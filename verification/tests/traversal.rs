//! The save and restore traversals on concrete directories: ordering,
//! quiescing, skipping, and the failure cases.

use mmio_persist::devices::{
    Balloon, Block, BusDevice, GuestMemoryHandle, MmioTransport, Net, VirtioDevice, Vsock,
    VsockEvent, VsockUnixBackend, TYPE_BALLOON, TYPE_BLOCK, TYPE_NET, TYPE_VSOCK,
};
use mmio_persist::errors::{DeviceManagerError, Error};
use mmio_persist::manager::{
    IRQ_BASE, IRQ_MAX, MMIODevManagerConstructorArgs, MMIODeviceManager, MMIO_MEM_START,
};
use mmio_persist::records::{CacheType, MmioSlot, MmioTransportState};
use mmio_persist::resources::{EventManager, VmResources};

fn slot(index: u64, id: &str) -> MmioSlot {
    MmioSlot {
        base_address: MMIO_MEM_START + index * 0x1000,
        length: 0x1000,
        irq: IRQ_BASE + index as u32,
        device_id: id.to_string(),
    }
}

fn transport(device: VirtioDevice) -> MmioTransport {
    MmioTransport {
        state: MmioTransportState {
            queue_select: 0,
            acked_features: 0,
            interrupt_status: 0,
            device_status: 0,
        },
        device,
    }
}

fn block(root: bool) -> Block {
    Block {
        is_root_device: root,
        is_read_only: false,
        cache_type: CacheType::Writeback,
        pending_metadata: 0,
        flushed_metadata: 0,
    }
}

fn vsock(activated: bool) -> Vsock {
    Vsock {
        cid: 3,
        backend: VsockUnixBackend { cid: 3, uds_path: "/tmp/v.sock".to_string() },
        activated,
        transport_events: Vec::new(),
    }
}

fn restore_args() -> MMIODevManagerConstructorArgs {
    MMIODevManagerConstructorArgs {
        mem: GuestMemoryHandle { size: 128 << 20 },
        instance_id: "microvm-id".to_string(),
    }
}

#[test]
fn block_order_survives_restore() {
    let mut manager = MMIODeviceManager::new(MMIO_MEM_START, (IRQ_BASE, IRQ_MAX));
    for (i, id) in ["a", "b", "c"].iter().enumerate() {
        manager
            .register_mmio_virtio(
                id.to_string(),
                transport(VirtioDevice::Block(block(i == 0))),
                slot(i as u64, id),
            )
            .unwrap();
    }
    let states = manager.save();
    let saved_ids: Vec<String> = states.block_devices.iter().map(|b| b.device_id.clone()).collect();
    assert_eq!(saved_ids, vec!["a".to_string(), "b".to_string(), "c".to_string()]);

    let mut vm_resources = VmResources::new();
    let mut event_manager = EventManager::new();
    let restored =
        MMIODeviceManager::restore(&restore_args(), &states, &mut vm_resources, &mut event_manager)
            .unwrap();
    let restored_ids: Vec<String> = restored
        .entries
        .iter()
        .filter(|e| matches!(&e.device, BusDevice::Virtio(t) if matches!(t.device, VirtioDevice::Block(_))))
        .map(|e| e.device_id.clone())
        .collect();
    assert_eq!(restored_ids, vec!["a".to_string(), "b".to_string(), "c".to_string()]);
}

#[test]
fn slot_collision_fails_second_registration() {
    let mut manager = MMIODeviceManager::new(MMIO_MEM_START, (IRQ_BASE, IRQ_MAX));
    for (i, id) in ["a", "b"].iter().enumerate() {
        manager
            .register_mmio_virtio(
                id.to_string(),
                transport(VirtioDevice::Block(block(false))),
                slot(i as u64, id),
            )
            .unwrap();
    }
    let mut states = manager.save();
    // Tamper: both block records claim the same base address.
    states.block_devices[1].mmio_slot.base_address = states.block_devices[0].mmio_slot.base_address;

    let mut vm_resources = VmResources::new();
    let mut event_manager = EventManager::new();
    let result =
        MMIODeviceManager::restore(&restore_args(), &states, &mut vm_resources, &mut event_manager);
    assert_eq!(result.unwrap_err(), Error::DeviceManager(DeviceManagerError::SlotCollision));
}

#[test]
fn vsock_reset_sent_on_activated_save() {
    let mut manager = MMIODeviceManager::new(MMIO_MEM_START, (IRQ_BASE, IRQ_MAX));
    manager
        .register_mmio_virtio("vsock".to_string(), transport(VirtioDevice::Vsock(vsock(true))), slot(0, "vsock"))
        .unwrap();
    manager.save();
    let BusDevice::Virtio(t) = &manager.entries[0].device else {
        panic!("vsock entry lost");
    };
    let VirtioDevice::Vsock(v) = &t.device else {
        panic!("vsock device lost");
    };
    // Exactly one transport-reset event on the device's event channel.
    assert_eq!(v.transport_events, vec![VsockEvent::TransportReset]);
}

#[test]
fn vsock_reset_not_sent_on_inactive_save() {
    let mut manager = MMIODeviceManager::new(MMIO_MEM_START, (IRQ_BASE, IRQ_MAX));
    manager
        .register_mmio_virtio("vsock".to_string(), transport(VirtioDevice::Vsock(vsock(false))), slot(0, "vsock"))
        .unwrap();
    let states = manager.save();
    assert!(states.vsock_device.is_some());
    let BusDevice::Virtio(t) = &manager.entries[0].device else {
        panic!("vsock entry lost");
    };
    let VirtioDevice::Vsock(v) = &t.device else {
        panic!("vsock device lost");
    };
    assert!(v.transport_events.is_empty());
}

#[test]
fn save_flushes_block_metadata_and_skips_boot_timer() {
    let mut manager = MMIODeviceManager::new(MMIO_MEM_START, (IRQ_BASE, IRQ_MAX));
    manager.register_mmio_boot_timer(slot(0, "boot-timer")).unwrap();
    let mut b = block(true);
    b.pending_metadata = 42;
    manager
        .register_mmio_virtio("root".to_string(), transport(VirtioDevice::Block(b)), slot(1, "root"))
        .unwrap();
    let states = manager.save();
    // The boot timer is ephemeral: nothing of it is saved.
    assert!(states.legacy_devices.is_empty());
    assert_eq!(states.block_devices.len(), 1);
    // The in-flight metadata reached the captured state.
    assert_eq!(states.block_devices[0].device_state.flushed_metadata, 42);
    let BusDevice::Virtio(t) = &manager.entries[1].device else {
        panic!("block entry lost");
    };
    let VirtioDevice::Block(saved) = &t.device else {
        panic!("block device lost");
    };
    assert_eq!(saved.pending_metadata, 0);
    assert_eq!(saved.flushed_metadata, 42);
}

#[test]
fn registration_rejects_bad_slots() {
    let mut manager = MMIODeviceManager::new(MMIO_MEM_START, (IRQ_BASE, IRQ_MAX));
    let mut below_window = slot(0, "low");
    below_window.base_address = MMIO_MEM_START - 1;
    assert_eq!(
        manager.register_mmio_serial(below_window),
        Err(DeviceManagerError::SlotOutOfWindow)
    );
    let mut bad_irq = slot(0, "irq");
    bad_irq.irq = IRQ_MAX + 1;
    assert_eq!(manager.register_mmio_rtc(bad_irq), Err(DeviceManagerError::IrqOutOfRange));

    manager.register_mmio_serial(slot(0, "serial")).unwrap();
    let mut same_irq = slot(1, "other");
    same_irq.irq = IRQ_BASE;
    assert_eq!(manager.register_mmio_rtc(same_irq), Err(DeviceManagerError::IrqCollision));
    assert_eq!(
        manager.register_mmio_rtc(slot(0, "again")),
        Err(DeviceManagerError::SlotCollision)
    );
}

#[test]
fn legacy_devices_round_trip_first() {
    let mut manager = MMIODeviceManager::new(MMIO_MEM_START, (IRQ_BASE, IRQ_MAX));
    manager
        .register_mmio_virtio("disk".to_string(), transport(VirtioDevice::Block(block(true))), slot(0, "disk"))
        .unwrap();
    manager.register_mmio_serial(slot(1, "serial")).unwrap();
    manager.register_mmio_rtc(slot(2, "rtc")).unwrap();
    let states = manager.save();
    assert_eq!(states.legacy_devices.len(), 2);

    let mut vm_resources = VmResources::new();
    let mut event_manager = EventManager::new();
    let restored =
        MMIODeviceManager::restore(&restore_args(), &states, &mut vm_resources, &mut event_manager)
            .unwrap();
    // Restore order: legacy devices first, then the virtio devices.
    assert!(matches!(restored.entries[0].device, BusDevice::Serial));
    assert!(matches!(restored.entries[1].device, BusDevice::Rtc));
    assert!(matches!(restored.entries[2].device, BusDevice::Virtio(_)));
    // Legacy devices are not event subscribers.
    assert_eq!(event_manager.subscribers, vec!["disk".to_string()]);
}

#[test]
fn device_types_match_the_virtio_ids() {
    let balloon = VirtioDevice::Balloon(Balloon {
        amount_mib: 1,
        deflate_on_oom: false,
        stats_polling_interval_s: 0,
    });
    assert_eq!(balloon.device_type(), TYPE_BALLOON);
    assert_eq!(VirtioDevice::Block(block(false)).device_type(), TYPE_BLOCK);
    let net = VirtioDevice::Net(Net { host_dev_name: "tap0".to_string(), mmds_ns: None });
    assert_eq!(net.device_type(), TYPE_NET);
    assert_eq!(VirtioDevice::Vsock(vsock(false)).device_type(), TYPE_VSOCK);
    assert_eq!((TYPE_NET, TYPE_BLOCK, TYPE_BALLOON, TYPE_VSOCK), (1, 2, 5, 19));
}
