//! The byte codec: exact encodings, round trips, malformed input, and
//! the version map.

use mmio_persist::errors::Error;
use mmio_persist::records::{
    BalloonState, BlockState, CacheType, ConnectedBalloonState, ConnectedBlockState,
    ConnectedLegacyState, ConnectedNetState, DeviceStates, LegacyDeviceKind,
    MmdsNetworkStackState, MmdsVersionState, MmioSlot, MmioTransportState, NetState,
};
use mmio_persist::version_map::VersionMap;

fn empty_states() -> DeviceStates {
    DeviceStates {
        legacy_devices: Vec::new(),
        block_devices: Vec::new(),
        net_devices: Vec::new(),
        vsock_device: None,
        balloon_device: None,
        mmds_version: None,
    }
}

fn transport_state() -> MmioTransportState {
    MmioTransportState {
        queue_select: 1,
        acked_features: 0x1_0000_0007,
        interrupt_status: 2,
        device_status: 0xf,
    }
}

fn slot(id: &str) -> MmioSlot {
    MmioSlot { base_address: 0xd000_0000, length: 0x1000, irq: 5, device_id: id.to_string() }
}

#[test]
fn empty_snapshot_bytes_are_exact() {
    let version_map = VersionMap::new();
    let buf = empty_states().serialize(&version_map, 1).unwrap();
    // Three empty sequences (u64 counts) and one absent vsock (tag byte).
    let mut expected = vec![0u8; 24];
    expected.push(0);
    assert_eq!(buf, expected);

    let mut version_map = VersionMap::new();
    version_map.new_version();
    version_map.set_type_version(3);
    let buf = empty_states().serialize(&version_map, 2).unwrap();
    // Schema 3 adds the absent balloon and the absent MMDS version.
    let mut expected = vec![0u8; 24];
    expected.extend_from_slice(&[0, 0, 0]);
    assert_eq!(buf, expected);
}

#[test]
fn version_map_selects_the_schema() {
    let mut version_map = VersionMap::new();
    assert_eq!(version_map.latest_version(), 1);
    assert_eq!(version_map.get_type_version(1), 1);
    version_map.new_version();
    assert_eq!(version_map.latest_version(), 2);
    assert_eq!(version_map.get_type_version(2), 1);
    version_map.set_type_version(2);
    assert_eq!(version_map.get_type_version(2), 2);
    assert_eq!(version_map.get_type_version(1), 1);
}

#[test]
fn mmds_version_is_dropped_below_schema_three() {
    let mut version_map = VersionMap::new();
    version_map.new_version();
    version_map.set_type_version(2);
    version_map.new_version();
    version_map.set_type_version(3);

    let mut states = empty_states();
    states.mmds_version = Some(MmdsVersionState::V2);
    // The hook only warns below schema 3: serialization succeeds.
    let buf_v2 = states.serialize(&version_map, 2).unwrap();
    let back = DeviceStates::deserialize(&buf_v2, &version_map, 2).unwrap();
    assert!(back.mmds_version.is_none());

    let buf_v3 = states.serialize(&version_map, 3).unwrap();
    let back = DeviceStates::deserialize(&buf_v3, &version_map, 3).unwrap();
    assert_eq!(back.mmds_version, Some(MmdsVersionState::V2));
}

#[test]
fn balloon_gating_follows_the_schema() {
    let mut version_map = VersionMap::new();
    version_map.new_version();
    version_map.set_type_version(2);

    let mut states = empty_states();
    states.balloon_device = Some(ConnectedBalloonState {
        device_id: "balloon".to_string(),
        device_state: BalloonState {
            amount_mib: 123,
            deflate_on_oom: false,
            stats_polling_interval_s: 1,
        },
        transport_state: transport_state(),
        mmio_slot: slot("balloon"),
    });
    assert_eq!(
        states.serialize(&version_map, 1),
        Err(Error::SchemaSemantic(
            "Target version does not implement the virtio-balloon device.".to_string()
        ))
    );
    let buf = states.serialize(&version_map, 2).unwrap();
    let back = DeviceStates::deserialize(&buf, &version_map, 2).unwrap();
    let balloon = back.balloon_device.unwrap();
    assert_eq!(balloon.device_id, "balloon");
    assert_eq!(balloon.device_state.amount_mib, 123);
    assert_eq!(balloon.transport_state, transport_state());
    assert_eq!(balloon.mmio_slot.base_address, 0xd000_0000);
}

#[test]
fn records_round_trip_with_multibyte_identifiers() {
    let version_map = VersionMap::new();
    let mut states = empty_states();
    states.legacy_devices.push(ConnectedLegacyState {
        type_: LegacyDeviceKind::Rtc,
        mmio_slot: slot("rtc"),
    });
    states.block_devices.push(ConnectedBlockState {
        device_id: "wurzelger\u{e4}t".to_string(),
        device_state: BlockState {
            is_root_device: true,
            is_read_only: false,
            cache_type: CacheType::Writeback,
            flushed_metadata: 99,
        },
        transport_state: transport_state(),
        mmio_slot: slot("wurzelger\u{e4}t"),
    });
    states.net_devices.push(ConnectedNetState {
        device_id: "netif".to_string(),
        device_state: NetState {
            host_dev_name: "hostname".to_string(),
            mmds_ns: Some(MmdsNetworkStackState { ipv4_addr: 0xa9fe_a9fe }),
        },
        transport_state: transport_state(),
        mmio_slot: slot("netif"),
    });
    let buf = states.serialize(&version_map, 1).unwrap();
    let back = DeviceStates::deserialize(&buf, &version_map, 1).unwrap();
    assert_eq!(back.legacy_devices.len(), 1);
    assert_eq!(back.legacy_devices[0].type_, LegacyDeviceKind::Rtc);
    assert_eq!(back.block_devices.len(), 1);
    assert_eq!(back.block_devices[0].device_id, "wurzelger\u{e4}t");
    assert_eq!(back.block_devices[0].device_state.flushed_metadata, 99);
    assert_eq!(back.block_devices[0].device_state.cache_type, CacheType::Writeback);
    assert_eq!(back.net_devices[0].device_state.host_dev_name, "hostname");
    assert_eq!(
        back.net_devices[0].device_state.mmds_ns,
        Some(MmdsNetworkStackState { ipv4_addr: 0xa9fe_a9fe })
    );
    // A reader may hand in a larger buffer; trailing bytes are ignored.
    let mut padded = buf.clone();
    padded.resize(buf.len() + 64, 0xab);
    let again = DeviceStates::deserialize(&padded, &version_map, 1).unwrap();
    assert_eq!(again.block_devices[0].device_id, "wurzelger\u{e4}t");
}

#[test]
fn malformed_buffers_are_rejected() {
    let version_map = VersionMap::new();
    // Too short for the first sequence count.
    assert_eq!(
        DeviceStates::deserialize(&[0u8; 7], &version_map, 1).unwrap_err(),
        Error::InvalidFormat
    );
    // A vsock presence byte that is neither absent nor present.
    let mut buf = vec![0u8; 24];
    buf.push(9);
    assert_eq!(DeviceStates::deserialize(&buf, &version_map, 1).unwrap_err(), Error::InvalidFormat);
    // A record whose identifier claims more bytes than the buffer holds.
    let mut buf = vec![0u8; 8];
    buf[0] = 1;
    buf.extend_from_slice(&[0xff; 8]);
    assert_eq!(DeviceStates::deserialize(&buf, &version_map, 1).unwrap_err(), Error::InvalidFormat);
    // An identifier that is not UTF-8.
    let mut states = empty_states();
    states.legacy_devices.push(ConnectedLegacyState {
        type_: LegacyDeviceKind::Serial,
        mmio_slot: slot("ab"),
    });
    let mut buf = states.serialize(&version_map, 1).unwrap();
    // The slot's identifier bytes sit at the end of the legacy record:
    // count (8) + tag (1) + base (8) + length (8) + irq (4) + len (8).
    let id_start = 8 + 1 + 8 + 8 + 4 + 8;
    buf[id_start] = 0xff;
    buf[id_start + 1] = 0xfe;
    assert_eq!(DeviceStates::deserialize(&buf, &version_map, 1).unwrap_err(), Error::InvalidFormat);
}
