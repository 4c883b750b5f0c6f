//! End-to-end persistence: one device of each kind, saved, serialized,
//! deserialized and restored.

use mmio_persist::devices::{
    Balloon, Block, BusDevice, GuestMemoryHandle, MmdsNetworkStack, MmioTransport, Net,
    VirtioDevice, Vsock, VsockUnixBackend,
};
use mmio_persist::errors::Error;
use mmio_persist::manager::{
    IRQ_BASE, IRQ_MAX, MMIODevManagerConstructorArgs, MMIODeviceManager, MMIO_MEM_START,
};
use mmio_persist::records::{CacheType, DeviceStates, MmdsVersionState, MmioSlot, MmioTransportState};
use mmio_persist::resources::{EventManager, MmdsVersion, VmResources};
use mmio_persist::version_map::VersionMap;

fn slot(index: u64, id: &str) -> MmioSlot {
    MmioSlot {
        base_address: MMIO_MEM_START + index * 0x1000,
        length: 0x1000,
        irq: IRQ_BASE + index as u32,
        device_id: id.to_string(),
    }
}

fn transport_state() -> MmioTransportState {
    MmioTransportState {
        queue_select: 0,
        acked_features: 0x23,
        interrupt_status: 0,
        device_status: 0xf,
    }
}

fn transport(device: VirtioDevice) -> MmioTransport {
    MmioTransport { state: transport_state(), device }
}

/// A manager holding one balloon, one block, one net (with an MMDS
/// namespace at version 2) and one vsock device.
fn build_manager(vsock_activated: bool) -> MMIODeviceManager {
    let mut manager = MMIODeviceManager::new(MMIO_MEM_START, (IRQ_BASE, IRQ_MAX));
    let balloon = Balloon { amount_mib: 123, deflate_on_oom: false, stats_polling_interval_s: 1 };
    manager
        .register_mmio_virtio(
            "balloon".to_string(),
            transport(VirtioDevice::Balloon(balloon)),
            slot(0, "balloon"),
        )
        .unwrap();
    let block = Block {
        is_root_device: true,
        is_read_only: true,
        cache_type: CacheType::Unsafe,
        pending_metadata: 7,
        flushed_metadata: 0,
    };
    manager
        .register_mmio_virtio("root".to_string(), transport(VirtioDevice::Block(block)), slot(1, "root"))
        .unwrap();
    let net = Net {
        host_dev_name: "hostname".to_string(),
        mmds_ns: Some(MmdsNetworkStack { ipv4_addr: 0xa9fe_a9fe, version: MmdsVersion::V2 }),
    };
    manager
        .register_mmio_virtio("netif".to_string(), transport(VirtioDevice::Net(net)), slot(2, "netif"))
        .unwrap();
    let vsock = Vsock {
        cid: 3,
        backend: VsockUnixBackend { cid: 3, uds_path: "/tmp/vsock.sock".to_string() },
        activated: vsock_activated,
        transport_events: Vec::new(),
    };
    manager
        .register_mmio_virtio("vsock".to_string(), transport(VirtioDevice::Vsock(vsock)), slot(3, "vsock"))
        .unwrap();
    manager
}

fn id_slot_pairs(manager: &MMIODeviceManager) -> Vec<(String, u64, u64, u32)> {
    let mut pairs: Vec<(String, u64, u64, u32)> = Vec::new();
    for entry in &manager.entries {
        pairs.push((
            entry.device_id.clone(),
            entry.slot.base_address,
            entry.slot.length,
            entry.slot.irq,
        ));
    }
    pairs.sort();
    pairs
}

#[test]
fn test_device_manager_persistence() {
    let mut version_map = VersionMap::new();
    let mut original = build_manager(false);
    let states = original.save();

    // A balloon cannot ride in a version-1 snapshot.
    assert_eq!(
        states.serialize(&version_map, 1),
        Err(Error::SchemaSemantic(
            "Target version does not implement the virtio-balloon device.".to_string()
        ))
    );

    version_map.new_version();
    version_map.set_type_version(2);
    let buf_v2 = states.serialize(&version_map, 2).unwrap();

    // A version-2 snapshot drops the MMDS version; it reads back as none.
    let states_v2 = DeviceStates::deserialize(&buf_v2, &version_map, 2).unwrap();
    assert!(states_v2.mmds_version.is_none());

    version_map.new_version();
    version_map.set_type_version(3);
    let buf_v3 = states.serialize(&version_map, 3).unwrap();

    let device_states = DeviceStates::deserialize(&buf_v3, &version_map, 3).unwrap();
    assert_eq!(device_states.mmds_version, Some(MmdsVersionState::V2));

    let mut vm_resources = VmResources::new();
    let mut event_manager = EventManager::new();
    let restore_args = MMIODevManagerConstructorArgs {
        mem: GuestMemoryHandle { size: 128 << 20 },
        instance_id: "microvm-id".to_string(),
    };
    let restored = MMIODeviceManager::restore(
        &restore_args,
        &device_states,
        &mut vm_resources,
        &mut event_manager,
    )
    .unwrap();

    // The restored directory holds the same (identifier, slot) pairs.
    assert_eq!(id_slot_pairs(&restored), id_slot_pairs(&original));

    // The restored resources carry the authoritative MMDS version, scoped
    // to the instance.
    let mmds = vm_resources.mmds.as_ref().unwrap();
    assert_eq!(mmds.version, MmdsVersion::V2);
    assert_eq!(mmds.instance_id, "microvm-id");

    // Every virtio device is subscribed to the event manager.
    assert_eq!(
        event_manager.subscribers,
        vec![
            "balloon".to_string(),
            "root".to_string(),
            "netif".to_string(),
            "vsock".to_string()
        ]
    );

    // The restored net device observes the store the reconciliation step
    // settled on.
    let mut saw_net = false;
    for entry in &restored.entries {
        if let BusDevice::Virtio(t) = &entry.device {
            if let VirtioDevice::Net(n) = &t.device {
                assert_eq!(n.mmds_ns.as_ref().unwrap().version, MmdsVersion::V2);
                saw_net = true;
            }
        }
    }
    assert!(saw_net);
}

#[test]
fn legacy_snapshot_infers_default_mmds() {
    // A version-2 snapshot with a namespace-owning net device and no MMDS
    // version field: restore initializes the store with its default.
    let mut version_map = VersionMap::new();
    version_map.new_version();
    version_map.set_type_version(2);

    let mut original = build_manager(false);
    let states = original.save();
    let buf = states.serialize(&version_map, 2).unwrap();
    let device_states = DeviceStates::deserialize(&buf, &version_map, 2).unwrap();
    assert!(device_states.mmds_version.is_none());

    let mut vm_resources = VmResources::new();
    let mut event_manager = EventManager::new();
    let restore_args = MMIODevManagerConstructorArgs {
        mem: GuestMemoryHandle { size: 128 << 20 },
        instance_id: "microvm-id".to_string(),
    };
    let restored = MMIODeviceManager::restore(
        &restore_args,
        &device_states,
        &mut vm_resources,
        &mut event_manager,
    )
    .unwrap();
    assert_eq!(vm_resources.mmds.as_ref().unwrap().version, MmdsVersion::V1);

    for entry in &restored.entries {
        if let BusDevice::Virtio(t) = &entry.device {
            if let VirtioDevice::Net(n) = &t.device {
                assert_eq!(n.mmds_ns.as_ref().unwrap().version, MmdsVersion::V1);
            }
        }
    }
}

#[test]
fn snapshot_without_mmds_initializes_no_store() {
    let mut version_map = VersionMap::new();
    let mut manager = MMIODeviceManager::new(MMIO_MEM_START, (IRQ_BASE, IRQ_MAX));
    let block = Block {
        is_root_device: true,
        is_read_only: false,
        cache_type: CacheType::Writeback,
        pending_metadata: 0,
        flushed_metadata: 0,
    };
    manager
        .register_mmio_virtio("disk".to_string(), transport(VirtioDevice::Block(block)), slot(0, "disk"))
        .unwrap();
    let states = manager.save();
    let buf = states.serialize(&version_map, 1).unwrap();
    let device_states = DeviceStates::deserialize(&buf, &version_map, 1).unwrap();

    let mut vm_resources = VmResources::new();
    let mut event_manager = EventManager::new();
    let restore_args = MMIODevManagerConstructorArgs {
        mem: GuestMemoryHandle { size: 128 << 20 },
        instance_id: "microvm-id".to_string(),
    };
    MMIODeviceManager::restore(&restore_args, &device_states, &mut vm_resources, &mut event_manager)
        .unwrap();
    assert!(vm_resources.mmds.is_none());
}
