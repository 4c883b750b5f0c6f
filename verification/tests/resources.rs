//! The VMM-side collaborators: version conversions, resource mirroring,
//! and the MMDS store initializer.

use mmio_persist::devices::{Balloon, Block, MmdsNetworkStack, Net, Vsock, VsockUnixBackend};
use mmio_persist::records::{CacheType, MmdsVersionState};
use mmio_persist::resources::{EventManager, MmdsVersion, SharedDeviceType, VmResources};

#[test]
fn version_conversions_are_inverse() {
    assert_eq!(MmdsVersion::from(MmdsVersionState::V1), MmdsVersion::V1);
    assert_eq!(MmdsVersion::from(MmdsVersionState::V2), MmdsVersion::V2);
    assert_eq!(MmdsVersionState::from(MmdsVersion::V1), MmdsVersionState::V1);
    assert_eq!(MmdsVersionState::from(MmdsVersion::V2), MmdsVersionState::V2);
    for state in [MmdsVersionState::V1, MmdsVersionState::V2] {
        assert_eq!(MmdsVersionState::from(MmdsVersion::from(state)), state);
    }
}

#[test]
fn restored_devices_are_mirrored_into_the_configuration() {
    let mut resources = VmResources::new();
    resources.update_from_restored_device(SharedDeviceType::SharedBalloon(Balloon {
        amount_mib: 123,
        deflate_on_oom: false,
        stats_polling_interval_s: 1,
    }));
    resources.update_from_restored_device(SharedDeviceType::SharedBlock(Block {
        is_root_device: true,
        is_read_only: true,
        cache_type: CacheType::Unsafe,
        pending_metadata: 0,
        flushed_metadata: 0,
    }));
    resources.update_from_restored_device(SharedDeviceType::SharedNetwork(Net {
        host_dev_name: "hostname".to_string(),
        mmds_ns: Some(MmdsNetworkStack { ipv4_addr: 0xa9fe_a9fe, version: MmdsVersion::V2 }),
    }));
    resources.update_from_restored_device(SharedDeviceType::SharedVsock(Vsock {
        cid: 3,
        backend: VsockUnixBackend { cid: 3, uds_path: "/tmp/v.sock".to_string() },
        activated: false,
        transport_events: Vec::new(),
    }));

    let balloon = resources.balloon.unwrap();
    assert_eq!(balloon.amount_mib, 123);
    assert_eq!(resources.block_configs.len(), 1);
    assert!(resources.block_configs[0].is_read_only);
    assert_eq!(resources.net_configs.len(), 1);
    assert_eq!(resources.net_configs[0].host_dev_name, "hostname");
    assert!(resources.net_configs[0].mmds_ns.is_some());
    let vsock = resources.vsock.unwrap();
    assert_eq!(vsock.frontend.cid, 3);
    assert_eq!(vsock.backend.uds_path, "/tmp/v.sock");
    // Mirroring devices never touches the MMDS store.
    assert!(resources.mmds.is_none());
}

#[test]
fn mmds_or_default_is_idempotent() {
    let mut resources = VmResources::new();
    resources.mmds_or_default();
    assert_eq!(resources.mmds.as_ref().unwrap().version, MmdsVersion::V1);

    resources.set_mmds_version(MmdsVersion::V2, "vm-7");
    assert_eq!(resources.mmds.as_ref().unwrap().version, MmdsVersion::V2);
    assert_eq!(resources.mmds.as_ref().unwrap().instance_id, "vm-7");

    // An existing store survives the initializer untouched.
    resources.mmds_or_default();
    assert_eq!(resources.mmds.as_ref().unwrap().version, MmdsVersion::V2);
    assert_eq!(resources.mmds.as_ref().unwrap().instance_id, "vm-7");
}

#[test]
fn event_manager_keeps_subscription_order() {
    let mut event_manager = EventManager::new();
    assert!(event_manager.subscribers.is_empty());
    event_manager.add_subscriber("a".to_string());
    event_manager.add_subscriber("b".to_string());
    assert_eq!(event_manager.subscribers, vec!["a".to_string(), "b".to_string()]);
}
