//! The versioned byte codec of the snapshot.
//!
//! Every record is length-free and positional: a blob is interpreted under
//! a `(version map, version)` pair, and a schema version decides exactly
//! which fields of the aggregate record are present. The serializers and
//! parsers here are written against specification-level byte sequences;
//! round-trip lemmas prove that parsing undoes serializing.
//!
//! Encoding: integers are little-endian; `bool` and enum tags are one
//! byte; a string is its byte length as `u64` followed by its UTF-8 bytes;
//! a sequence is its element count as `u64` followed by the elements; an
//! option is a presence byte followed by the payload if present.

use vstd::prelude::*;
use vstd::bytes::*;
use vstd::utf8::*;

use crate::errors::Error;
use crate::records::{
    BalloonState, BlockState, CacheType, ConnectedBalloonState, ConnectedBalloonV,
    ConnectedBlockState, ConnectedBlockV, ConnectedLegacyState, ConnectedLegacyV,
    ConnectedNetState, ConnectedNetV, ConnectedVsockState, ConnectedVsockV, DeviceStates,
    DeviceStatesV, LegacyDeviceKind, MmdsNetworkStackState, MmdsVersionState, MmioSlot,
    MmioSlotV, MmioTransportState, NetState, NetStateV, VsockBackendState, VsockBackendStateV,
    VsockFrontendState, VsockState, VsockStateV, views_of_blocks, views_of_legacy, views_of_nets,
};
use crate::version_map::VersionMap;

verus! {

// ---------------------------------------------------------------------
// Primitive serializers and parsers, specification level.
//
// A parser takes the bytes still to read and yields the parsed value and
// the bytes it did not consume, or nothing if the input does not start
// with a well-formed encoding.
// ---------------------------------------------------------------------

pub open spec fn ser_u8(x: u8) -> Seq<u8> {
    seq![x]
}

pub open spec fn parse_u8(b: Seq<u8>) -> Option<(u8, Seq<u8>)> {
    if b.len() >= 1 {
        Some((b[0], b.skip(1)))
    } else {
        None
    }
}

pub open spec fn ser_u16(x: u16) -> Seq<u8> {
    spec_u16_to_le_bytes(x)
}

pub open spec fn parse_u16(b: Seq<u8>) -> Option<(u16, Seq<u8>)> {
    if b.len() >= 2 {
        Some((spec_u16_from_le_bytes(b.take(2)), b.skip(2)))
    } else {
        None
    }
}

pub open spec fn ser_u32(x: u32) -> Seq<u8> {
    spec_u32_to_le_bytes(x)
}

pub open spec fn parse_u32(b: Seq<u8>) -> Option<(u32, Seq<u8>)> {
    if b.len() >= 4 {
        Some((spec_u32_from_le_bytes(b.take(4)), b.skip(4)))
    } else {
        None
    }
}

pub open spec fn ser_u64(x: u64) -> Seq<u8> {
    spec_u64_to_le_bytes(x)
}

pub open spec fn parse_u64(b: Seq<u8>) -> Option<(u64, Seq<u8>)> {
    if b.len() >= 8 {
        Some((spec_u64_from_le_bytes(b.take(8)), b.skip(8)))
    } else {
        None
    }
}

pub open spec fn ser_bool(x: bool) -> Seq<u8> {
    if x {
        seq![1u8]
    } else {
        seq![0u8]
    }
}

pub open spec fn parse_bool(b: Seq<u8>) -> Option<(bool, Seq<u8>)> {
    if b.len() >= 1 && (b[0] == 0 || b[0] == 1) {
        Some((b[0] == 1, b.skip(1)))
    } else {
        None
    }
}

/// A string whose UTF-8 encoding is countable by the length prefix.
/// Every string held by executable code satisfies this.
pub open spec fn str_fits(s: Seq<char>) -> bool {
    encode_utf8(s).len() <= u64::MAX
}

pub open spec fn ser_string(s: Seq<char>) -> Seq<u8> {
    spec_u64_to_le_bytes(encode_utf8(s).len() as u64) + encode_utf8(s)
}

pub open spec fn parse_string(b: Seq<u8>) -> Option<(Seq<char>, Seq<u8>)> {
    match parse_u64(b) {
        Some((n, r)) => if n <= r.len() && valid_utf8(r.take(n as int)) {
            Some((decode_utf8(r.take(n as int)), r.skip(n as int)))
        } else {
            None
        },
        None => None,
    }
}

// ---------------------------------------------------------------------
// Round-trip lemmas for the primitives.
// ---------------------------------------------------------------------

pub proof fn lemma_parse_ser_u8(x: u8, rest: Seq<u8>)
    ensures
        parse_u8(ser_u8(x) + rest) == Some((x, rest)),
{
    let b = ser_u8(x) + rest;
    assert(b.skip(1) =~= rest);
}

pub proof fn lemma_parse_ser_u16(x: u16, rest: Seq<u8>)
    ensures
        parse_u16(ser_u16(x) + rest) == Some((x, rest)),
{
    lemma_auto_spec_u16_to_from_le_bytes();
    let b = ser_u16(x) + rest;
    assert(b.take(2) =~= spec_u16_to_le_bytes(x));
    assert(b.skip(2) =~= rest);
}

pub proof fn lemma_parse_ser_u32(x: u32, rest: Seq<u8>)
    ensures
        parse_u32(ser_u32(x) + rest) == Some((x, rest)),
{
    lemma_auto_spec_u32_to_from_le_bytes();
    let b = ser_u32(x) + rest;
    assert(b.take(4) =~= spec_u32_to_le_bytes(x));
    assert(b.skip(4) =~= rest);
}

pub proof fn lemma_parse_ser_u64(x: u64, rest: Seq<u8>)
    ensures
        parse_u64(ser_u64(x) + rest) == Some((x, rest)),
{
    lemma_auto_spec_u64_to_from_le_bytes();
    let b = ser_u64(x) + rest;
    assert(b.take(8) =~= spec_u64_to_le_bytes(x));
    assert(b.skip(8) =~= rest);
}

pub proof fn lemma_parse_ser_bool(x: bool, rest: Seq<u8>)
    ensures
        parse_bool(ser_bool(x) + rest) == Some((x, rest)),
{
    let b = ser_bool(x) + rest;
    assert(b.skip(1) =~= rest);
}

pub proof fn lemma_parse_ser_string(s: Seq<char>, rest: Seq<u8>)
    requires
        str_fits(s),
    ensures
        parse_string(ser_string(s) + rest) == Some((s, rest)),
{
    let enc = encode_utf8(s);
    let n = enc.len() as u64;
    let b = ser_string(s) + rest;
    assert(b =~= spec_u64_to_le_bytes(n) + (enc + rest));
    lemma_parse_ser_u64(n, enc + rest);
    let r = enc + rest;
    assert(r.take(n as int) =~= enc);
    assert(r.skip(n as int) =~= rest);
    broadcast use encode_utf8_valid_utf8;
    broadcast use encode_utf8_decode_utf8;

    assert(valid_utf8(enc));
    assert(decode_utf8(enc) == s);
}

// ---------------------------------------------------------------------
// Enum tags.
// ---------------------------------------------------------------------

pub open spec fn ser_mmds_version_state(v: MmdsVersionState) -> Seq<u8> {
    match v {
        MmdsVersionState::V1 => seq![0u8],
        MmdsVersionState::V2 => seq![1u8],
    }
}

pub open spec fn parse_mmds_version_state(b: Seq<u8>) -> Option<(MmdsVersionState, Seq<u8>)> {
    if b.len() >= 1 && b[0] == 0 {
        Some((MmdsVersionState::V1, b.skip(1)))
    } else if b.len() >= 1 && b[0] == 1 {
        Some((MmdsVersionState::V2, b.skip(1)))
    } else {
        None
    }
}

pub proof fn lemma_parse_ser_mmds_version_state(v: MmdsVersionState, rest: Seq<u8>)
    ensures
        parse_mmds_version_state(ser_mmds_version_state(v) + rest) == Some((v, rest)),
{
    let b = ser_mmds_version_state(v) + rest;
    assert(b.skip(1) =~= rest);
}

pub open spec fn ser_cache_type(v: CacheType) -> Seq<u8> {
    match v {
        CacheType::Unsafe => seq![0u8],
        CacheType::Writeback => seq![1u8],
    }
}

pub open spec fn parse_cache_type(b: Seq<u8>) -> Option<(CacheType, Seq<u8>)> {
    if b.len() >= 1 && b[0] == 0 {
        Some((CacheType::Unsafe, b.skip(1)))
    } else if b.len() >= 1 && b[0] == 1 {
        Some((CacheType::Writeback, b.skip(1)))
    } else {
        None
    }
}

pub proof fn lemma_parse_ser_cache_type(v: CacheType, rest: Seq<u8>)
    ensures
        parse_cache_type(ser_cache_type(v) + rest) == Some((v, rest)),
{
    let b = ser_cache_type(v) + rest;
    assert(b.skip(1) =~= rest);
}

pub open spec fn ser_legacy_kind(v: LegacyDeviceKind) -> Seq<u8> {
    match v {
        LegacyDeviceKind::Serial => seq![0u8],
        LegacyDeviceKind::Rtc => seq![1u8],
    }
}

pub open spec fn parse_legacy_kind(b: Seq<u8>) -> Option<(LegacyDeviceKind, Seq<u8>)> {
    if b.len() >= 1 && b[0] == 0 {
        Some((LegacyDeviceKind::Serial, b.skip(1)))
    } else if b.len() >= 1 && b[0] == 1 {
        Some((LegacyDeviceKind::Rtc, b.skip(1)))
    } else {
        None
    }
}

pub proof fn lemma_parse_ser_legacy_kind(v: LegacyDeviceKind, rest: Seq<u8>)
    ensures
        parse_legacy_kind(ser_legacy_kind(v) + rest) == Some((v, rest)),
{
    let b = ser_legacy_kind(v) + rest;
    assert(b.skip(1) =~= rest);
}

// ---------------------------------------------------------------------
// Fixed-shape records.
// ---------------------------------------------------------------------

pub open spec fn ser_transport(t: MmioTransportState) -> Seq<u8> {
    ser_u16(t.queue_select) + ser_u64(t.acked_features) + ser_u8(t.interrupt_status) + ser_u8(
        t.device_status,
    )
}

pub open spec fn parse_transport(b: Seq<u8>) -> Option<(MmioTransportState, Seq<u8>)> {
    match parse_u16(b) {
        Some((queue_select, r1)) => match parse_u64(r1) {
            Some((acked_features, r2)) => match parse_u8(r2) {
                Some((interrupt_status, r3)) => match parse_u8(r3) {
                    Some((device_status, r4)) => Some(
                        (
                            MmioTransportState {
                                queue_select,
                                acked_features,
                                interrupt_status,
                                device_status,
                            },
                            r4,
                        ),
                    ),
                    None => None,
                },
                None => None,
            },
            None => None,
        },
        None => None,
    }
}

pub proof fn lemma_parse_ser_transport(t: MmioTransportState, rest: Seq<u8>)
    ensures
        parse_transport(ser_transport(t) + rest) == Some((t, rest)),
{
    let t3 = ser_u8(t.device_status) + rest;
    let t2 = ser_u8(t.interrupt_status) + t3;
    let t1 = ser_u64(t.acked_features) + t2;
    assert(ser_transport(t) + rest =~= ser_u16(t.queue_select) + t1);
    lemma_parse_ser_u16(t.queue_select, t1);
    lemma_parse_ser_u64(t.acked_features, t2);
    lemma_parse_ser_u8(t.interrupt_status, t3);
    lemma_parse_ser_u8(t.device_status, rest);
}

pub open spec fn ser_slot(s: MmioSlotV) -> Seq<u8> {
    ser_u64(s.base_address) + ser_u64(s.length) + ser_u32(s.irq) + ser_string(s.device_id)
}

pub open spec fn parse_slot(b: Seq<u8>) -> Option<(MmioSlotV, Seq<u8>)> {
    match parse_u64(b) {
        Some((base_address, r1)) => match parse_u64(r1) {
            Some((length, r2)) => match parse_u32(r2) {
                Some((irq, r3)) => match parse_string(r3) {
                    Some((device_id, r4)) => Some(
                        (MmioSlotV { base_address, length, irq, device_id }, r4),
                    ),
                    None => None,
                },
                None => None,
            },
            None => None,
        },
        None => None,
    }
}

/// The slot's variable-length parts are countable by their length prefix.
pub open spec fn slot_fits(s: MmioSlotV) -> bool {
    str_fits(s.device_id)
}

pub proof fn lemma_parse_ser_slot(s: MmioSlotV, rest: Seq<u8>)
    requires
        slot_fits(s),
    ensures
        parse_slot(ser_slot(s) + rest) == Some((s, rest)),
{
    let t3 = ser_string(s.device_id) + rest;
    let t2 = ser_u32(s.irq) + t3;
    let t1 = ser_u64(s.length) + t2;
    assert(ser_slot(s) + rest =~= ser_u64(s.base_address) + t1);
    lemma_parse_ser_u64(s.base_address, t1);
    lemma_parse_ser_u64(s.length, t2);
    lemma_parse_ser_u32(s.irq, t3);
    lemma_parse_ser_string(s.device_id, rest);
}

pub open spec fn ser_balloon_state(s: BalloonState) -> Seq<u8> {
    ser_u32(s.amount_mib) + ser_bool(s.deflate_on_oom) + ser_u16(s.stats_polling_interval_s)
}

pub open spec fn parse_balloon_state(b: Seq<u8>) -> Option<(BalloonState, Seq<u8>)> {
    match parse_u32(b) {
        Some((amount_mib, r1)) => match parse_bool(r1) {
            Some((deflate_on_oom, r2)) => match parse_u16(r2) {
                Some((stats_polling_interval_s, r3)) => Some(
                    (BalloonState { amount_mib, deflate_on_oom, stats_polling_interval_s }, r3),
                ),
                None => None,
            },
            None => None,
        },
        None => None,
    }
}

pub proof fn lemma_parse_ser_balloon_state(s: BalloonState, rest: Seq<u8>)
    ensures
        parse_balloon_state(ser_balloon_state(s) + rest) == Some((s, rest)),
{
    let t2 = ser_u16(s.stats_polling_interval_s) + rest;
    let t1 = ser_bool(s.deflate_on_oom) + t2;
    assert(ser_balloon_state(s) + rest =~= ser_u32(s.amount_mib) + t1);
    lemma_parse_ser_u32(s.amount_mib, t1);
    lemma_parse_ser_bool(s.deflate_on_oom, t2);
    lemma_parse_ser_u16(s.stats_polling_interval_s, rest);
}

pub open spec fn ser_block_state(s: BlockState) -> Seq<u8> {
    ser_bool(s.is_root_device) + ser_bool(s.is_read_only) + ser_cache_type(s.cache_type) + ser_u64(
        s.flushed_metadata,
    )
}

pub open spec fn parse_block_state(b: Seq<u8>) -> Option<(BlockState, Seq<u8>)> {
    match parse_bool(b) {
        Some((is_root_device, r1)) => match parse_bool(r1) {
            Some((is_read_only, r2)) => match parse_cache_type(r2) {
                Some((cache_type, r3)) => match parse_u64(r3) {
                    Some((flushed_metadata, r4)) => Some(
                        (
                            BlockState {
                                is_root_device,
                                is_read_only,
                                cache_type,
                                flushed_metadata,
                            },
                            r4,
                        ),
                    ),
                    None => None,
                },
                None => None,
            },
            None => None,
        },
        None => None,
    }
}

pub proof fn lemma_parse_ser_block_state(s: BlockState, rest: Seq<u8>)
    ensures
        parse_block_state(ser_block_state(s) + rest) == Some((s, rest)),
{
    let t3 = ser_u64(s.flushed_metadata) + rest;
    let t2 = ser_cache_type(s.cache_type) + t3;
    let t1 = ser_bool(s.is_read_only) + t2;
    assert(ser_block_state(s) + rest =~= ser_bool(s.is_root_device) + t1);
    lemma_parse_ser_bool(s.is_root_device, t1);
    lemma_parse_ser_bool(s.is_read_only, t2);
    lemma_parse_ser_cache_type(s.cache_type, t3);
    lemma_parse_ser_u64(s.flushed_metadata, rest);
}

pub open spec fn ser_mmds_ns(s: MmdsNetworkStackState) -> Seq<u8> {
    ser_u32(s.ipv4_addr)
}

pub open spec fn parse_mmds_ns(b: Seq<u8>) -> Option<(MmdsNetworkStackState, Seq<u8>)> {
    match parse_u32(b) {
        Some((ipv4_addr, r1)) => Some((MmdsNetworkStackState { ipv4_addr }, r1)),
        None => None,
    }
}

pub proof fn lemma_parse_ser_mmds_ns(s: MmdsNetworkStackState, rest: Seq<u8>)
    ensures
        parse_mmds_ns(ser_mmds_ns(s) + rest) == Some((s, rest)),
{
    lemma_parse_ser_u32(s.ipv4_addr, rest);
}

pub open spec fn ser_opt_mmds_ns(o: Option<MmdsNetworkStackState>) -> Seq<u8> {
    match o {
        Some(x) => seq![1u8] + ser_mmds_ns(x),
        None => seq![0u8],
    }
}

pub open spec fn parse_opt_mmds_ns(b: Seq<u8>) -> Option<
    (Option<MmdsNetworkStackState>, Seq<u8>),
> {
    if b.len() >= 1 && b[0] == 0 {
        Some((None, b.skip(1)))
    } else if b.len() >= 1 && b[0] == 1 {
        match parse_mmds_ns(b.skip(1)) {
            Some((x, r)) => Some((Some(x), r)),
            None => None,
        }
    } else {
        None
    }
}

pub proof fn lemma_parse_ser_opt_mmds_ns(o: Option<MmdsNetworkStackState>, rest: Seq<u8>)
    ensures
        parse_opt_mmds_ns(ser_opt_mmds_ns(o) + rest) == Some((o, rest)),
{
    match o {
        Some(x) => {
            let b = ser_opt_mmds_ns(o) + rest;
            assert(b.skip(1) =~= ser_mmds_ns(x) + rest);
            lemma_parse_ser_mmds_ns(x, rest);
        },
        None => {
            let b = ser_opt_mmds_ns(o) + rest;
            assert(b.skip(1) =~= rest);
        },
    }
}

pub open spec fn ser_net_state(s: NetStateV) -> Seq<u8> {
    ser_string(s.host_dev_name) + ser_opt_mmds_ns(s.mmds_ns)
}

pub open spec fn parse_net_state(b: Seq<u8>) -> Option<(NetStateV, Seq<u8>)> {
    match parse_string(b) {
        Some((host_dev_name, r1)) => match parse_opt_mmds_ns(r1) {
            Some((mmds_ns, r2)) => Some((NetStateV { host_dev_name, mmds_ns }, r2)),
            None => None,
        },
        None => None,
    }
}

pub proof fn lemma_parse_ser_net_state(s: NetStateV, rest: Seq<u8>)
    requires
        str_fits(s.host_dev_name),
    ensures
        parse_net_state(ser_net_state(s) + rest) == Some((s, rest)),
{
    let t1 = ser_opt_mmds_ns(s.mmds_ns) + rest;
    assert(ser_net_state(s) + rest =~= ser_string(s.host_dev_name) + t1);
    lemma_parse_ser_string(s.host_dev_name, t1);
    lemma_parse_ser_opt_mmds_ns(s.mmds_ns, rest);
}

pub open spec fn ser_vsock_state(s: VsockStateV) -> Seq<u8> {
    ser_string(s.backend.uds_path) + ser_u64(s.frontend.cid)
}

pub open spec fn parse_vsock_state(b: Seq<u8>) -> Option<(VsockStateV, Seq<u8>)> {
    match parse_string(b) {
        Some((uds_path, r1)) => match parse_u64(r1) {
            Some((cid, r2)) => Some(
                (
                    VsockStateV {
                        backend: VsockBackendStateV { uds_path },
                        frontend: VsockFrontendState { cid },
                    },
                    r2,
                ),
            ),
            None => None,
        },
        None => None,
    }
}

pub proof fn lemma_parse_ser_vsock_state(s: VsockStateV, rest: Seq<u8>)
    requires
        str_fits(s.backend.uds_path),
    ensures
        parse_vsock_state(ser_vsock_state(s) + rest) == Some((s, rest)),
{
    let t1 = ser_u64(s.frontend.cid) + rest;
    assert(ser_vsock_state(s) + rest =~= ser_string(s.backend.uds_path) + t1);
    lemma_parse_ser_string(s.backend.uds_path, t1);
    lemma_parse_ser_u64(s.frontend.cid, rest);
}

// ---------------------------------------------------------------------
// Connected-device records.
// ---------------------------------------------------------------------

pub open spec fn ser_connected_balloon(c: ConnectedBalloonV) -> Seq<u8> {
    ser_string(c.device_id) + ser_balloon_state(c.device_state) + ser_transport(c.transport_state)
        + ser_slot(c.mmio_slot)
}

pub open spec fn parse_connected_balloon(b: Seq<u8>) -> Option<(ConnectedBalloonV, Seq<u8>)> {
    match parse_string(b) {
        Some((device_id, r1)) => match parse_balloon_state(r1) {
            Some((device_state, r2)) => match parse_transport(r2) {
                Some((transport_state, r3)) => match parse_slot(r3) {
                    Some((mmio_slot, r4)) => Some(
                        (
                            ConnectedBalloonV { device_id, device_state, transport_state, mmio_slot },
                            r4,
                        ),
                    ),
                    None => None,
                },
                None => None,
            },
            None => None,
        },
        None => None,
    }
}

pub open spec fn connected_balloon_fits(c: ConnectedBalloonV) -> bool {
    str_fits(c.device_id) && slot_fits(c.mmio_slot)
}

pub proof fn lemma_parse_ser_connected_balloon(c: ConnectedBalloonV, rest: Seq<u8>)
    requires
        connected_balloon_fits(c),
    ensures
        parse_connected_balloon(ser_connected_balloon(c) + rest) == Some((c, rest)),
{
    let t3 = ser_slot(c.mmio_slot) + rest;
    let t2 = ser_transport(c.transport_state) + t3;
    let t1 = ser_balloon_state(c.device_state) + t2;
    assert(ser_connected_balloon(c) + rest =~= ser_string(c.device_id) + t1);
    lemma_parse_ser_string(c.device_id, t1);
    lemma_parse_ser_balloon_state(c.device_state, t2);
    lemma_parse_ser_transport(c.transport_state, t3);
    lemma_parse_ser_slot(c.mmio_slot, rest);
}

pub open spec fn ser_connected_block(c: ConnectedBlockV) -> Seq<u8> {
    ser_string(c.device_id) + ser_block_state(c.device_state) + ser_transport(c.transport_state)
        + ser_slot(c.mmio_slot)
}

pub open spec fn parse_connected_block(b: Seq<u8>) -> Option<(ConnectedBlockV, Seq<u8>)> {
    match parse_string(b) {
        Some((device_id, r1)) => match parse_block_state(r1) {
            Some((device_state, r2)) => match parse_transport(r2) {
                Some((transport_state, r3)) => match parse_slot(r3) {
                    Some((mmio_slot, r4)) => Some(
                        (
                            ConnectedBlockV { device_id, device_state, transport_state, mmio_slot },
                            r4,
                        ),
                    ),
                    None => None,
                },
                None => None,
            },
            None => None,
        },
        None => None,
    }
}

pub open spec fn connected_block_fits(c: ConnectedBlockV) -> bool {
    str_fits(c.device_id) && slot_fits(c.mmio_slot)
}

pub proof fn lemma_parse_ser_connected_block(c: ConnectedBlockV, rest: Seq<u8>)
    requires
        connected_block_fits(c),
    ensures
        parse_connected_block(ser_connected_block(c) + rest) == Some((c, rest)),
{
    let t3 = ser_slot(c.mmio_slot) + rest;
    let t2 = ser_transport(c.transport_state) + t3;
    let t1 = ser_block_state(c.device_state) + t2;
    assert(ser_connected_block(c) + rest =~= ser_string(c.device_id) + t1);
    lemma_parse_ser_string(c.device_id, t1);
    lemma_parse_ser_block_state(c.device_state, t2);
    lemma_parse_ser_transport(c.transport_state, t3);
    lemma_parse_ser_slot(c.mmio_slot, rest);
}

pub open spec fn ser_connected_net(c: ConnectedNetV) -> Seq<u8> {
    ser_string(c.device_id) + ser_net_state(c.device_state) + ser_transport(c.transport_state)
        + ser_slot(c.mmio_slot)
}

pub open spec fn parse_connected_net(b: Seq<u8>) -> Option<(ConnectedNetV, Seq<u8>)> {
    match parse_string(b) {
        Some((device_id, r1)) => match parse_net_state(r1) {
            Some((device_state, r2)) => match parse_transport(r2) {
                Some((transport_state, r3)) => match parse_slot(r3) {
                    Some((mmio_slot, r4)) => Some(
                        (ConnectedNetV { device_id, device_state, transport_state, mmio_slot }, r4),
                    ),
                    None => None,
                },
                None => None,
            },
            None => None,
        },
        None => None,
    }
}

pub open spec fn connected_net_fits(c: ConnectedNetV) -> bool {
    str_fits(c.device_id) && str_fits(c.device_state.host_dev_name) && slot_fits(c.mmio_slot)
}

pub proof fn lemma_parse_ser_connected_net(c: ConnectedNetV, rest: Seq<u8>)
    requires
        connected_net_fits(c),
    ensures
        parse_connected_net(ser_connected_net(c) + rest) == Some((c, rest)),
{
    let t3 = ser_slot(c.mmio_slot) + rest;
    let t2 = ser_transport(c.transport_state) + t3;
    let t1 = ser_net_state(c.device_state) + t2;
    assert(ser_connected_net(c) + rest =~= ser_string(c.device_id) + t1);
    lemma_parse_ser_string(c.device_id, t1);
    lemma_parse_ser_net_state(c.device_state, t2);
    lemma_parse_ser_transport(c.transport_state, t3);
    lemma_parse_ser_slot(c.mmio_slot, rest);
}

pub open spec fn ser_connected_vsock(c: ConnectedVsockV) -> Seq<u8> {
    ser_string(c.device_id) + ser_vsock_state(c.device_state) + ser_transport(c.transport_state)
        + ser_slot(c.mmio_slot)
}

pub open spec fn parse_connected_vsock(b: Seq<u8>) -> Option<(ConnectedVsockV, Seq<u8>)> {
    match parse_string(b) {
        Some((device_id, r1)) => match parse_vsock_state(r1) {
            Some((device_state, r2)) => match parse_transport(r2) {
                Some((transport_state, r3)) => match parse_slot(r3) {
                    Some((mmio_slot, r4)) => Some(
                        (
                            ConnectedVsockV { device_id, device_state, transport_state, mmio_slot },
                            r4,
                        ),
                    ),
                    None => None,
                },
                None => None,
            },
            None => None,
        },
        None => None,
    }
}

pub open spec fn connected_vsock_fits(c: ConnectedVsockV) -> bool {
    str_fits(c.device_id) && str_fits(c.device_state.backend.uds_path) && slot_fits(c.mmio_slot)
}

pub proof fn lemma_parse_ser_connected_vsock(c: ConnectedVsockV, rest: Seq<u8>)
    requires
        connected_vsock_fits(c),
    ensures
        parse_connected_vsock(ser_connected_vsock(c) + rest) == Some((c, rest)),
{
    let t3 = ser_slot(c.mmio_slot) + rest;
    let t2 = ser_transport(c.transport_state) + t3;
    let t1 = ser_vsock_state(c.device_state) + t2;
    assert(ser_connected_vsock(c) + rest =~= ser_string(c.device_id) + t1);
    lemma_parse_ser_string(c.device_id, t1);
    lemma_parse_ser_vsock_state(c.device_state, t2);
    lemma_parse_ser_transport(c.transport_state, t3);
    lemma_parse_ser_slot(c.mmio_slot, rest);
}

pub open spec fn ser_connected_legacy(c: ConnectedLegacyV) -> Seq<u8> {
    ser_legacy_kind(c.type_) + ser_slot(c.mmio_slot)
}

pub open spec fn parse_connected_legacy(b: Seq<u8>) -> Option<(ConnectedLegacyV, Seq<u8>)> {
    match parse_legacy_kind(b) {
        Some((type_, r1)) => match parse_slot(r1) {
            Some((mmio_slot, r2)) => Some((ConnectedLegacyV { type_, mmio_slot }, r2)),
            None => None,
        },
        None => None,
    }
}

pub open spec fn connected_legacy_fits(c: ConnectedLegacyV) -> bool {
    slot_fits(c.mmio_slot)
}

pub proof fn lemma_parse_ser_connected_legacy(c: ConnectedLegacyV, rest: Seq<u8>)
    requires
        connected_legacy_fits(c),
    ensures
        parse_connected_legacy(ser_connected_legacy(c) + rest) == Some((c, rest)),
{
    let t1 = ser_slot(c.mmio_slot) + rest;
    assert(ser_connected_legacy(c) + rest =~= ser_legacy_kind(c.type_) + t1);
    lemma_parse_ser_legacy_kind(c.type_, t1);
    lemma_parse_ser_slot(c.mmio_slot, rest);
}

// ---------------------------------------------------------------------
// Sequences of records: an element count as u64, then the elements.
// ---------------------------------------------------------------------

pub open spec fn ser_legacy_elems(s: Seq<ConnectedLegacyV>) -> Seq<u8>
    decreases s.len(),
{
    if s.len() == 0 {
        Seq::<u8>::empty()
    } else {
        ser_connected_legacy(s[0]) + ser_legacy_elems(s.drop_first())
    }
}

pub open spec fn ser_legacy_vec(s: Seq<ConnectedLegacyV>) -> Seq<u8> {
    ser_u64(s.len() as u64) + ser_legacy_elems(s)
}

pub open spec fn parse_legacy_elems(b: Seq<u8>, n: nat) -> Option<
    (Seq<ConnectedLegacyV>, Seq<u8>),
>
    decreases n,
{
    if n == 0 {
        Some((Seq::<ConnectedLegacyV>::empty(), b))
    } else {
        match parse_connected_legacy(b) {
            Some((x, r)) => match parse_legacy_elems(r, (n - 1) as nat) {
                Some((s, r2)) => Some((seq![x] + s, r2)),
                None => None,
            },
            None => None,
        }
    }
}

pub open spec fn parse_legacy_vec(b: Seq<u8>) -> Option<(Seq<ConnectedLegacyV>, Seq<u8>)> {
    match parse_u64(b) {
        Some((n, r)) => parse_legacy_elems(r, n as nat),
        None => None,
    }
}

#[verifier::rlimit(100)]
#[verifier::spinoff_prover]
pub proof fn lemma_parse_ser_legacy_elems(s: Seq<ConnectedLegacyV>, rest: Seq<u8>)
    requires
        forall|i: int| 0 <= i < s.len() ==> #[trigger] connected_legacy_fits(s[i]),
    ensures
        parse_legacy_elems(ser_legacy_elems(s) + rest, s.len() as nat) == Some((s, rest)),
    decreases s.len(),
{
    if s.len() == 0 {
        assert(ser_legacy_elems(s) + rest =~= rest);
        assert(Seq::<ConnectedLegacyV>::empty() =~= s);
    } else {
        let tl = s.drop_first();
        assert(ser_legacy_elems(s) + rest =~= ser_connected_legacy(s[0]) + (ser_legacy_elems(tl)
            + rest));
        lemma_parse_ser_connected_legacy(s[0], ser_legacy_elems(tl) + rest);
        assert(parse_connected_legacy(ser_legacy_elems(s) + rest) == Some((s[0], ser_legacy_elems(tl) + rest)));
        assert forall|i: int| 0 <= i < tl.len() implies #[trigger] connected_legacy_fits(
            tl[i],
        ) by {
            assert(tl[i] == s[i + 1]);
        }
        lemma_parse_ser_legacy_elems(tl, rest);
        assert(parse_legacy_elems(ser_legacy_elems(tl) + rest, tl.len() as nat) == Some((tl, rest)));
        assert(seq![s[0]] + tl =~= s);
    }
}

pub proof fn lemma_parse_ser_legacy_vec(s: Seq<ConnectedLegacyV>, rest: Seq<u8>)
    requires
        s.len() <= u64::MAX,
        forall|i: int| 0 <= i < s.len() ==> #[trigger] connected_legacy_fits(s[i]),
    ensures
        parse_legacy_vec(ser_legacy_vec(s) + rest) == Some((s, rest)),
{
    let t1 = ser_legacy_elems(s) + rest;
    assert(ser_legacy_vec(s) + rest =~= ser_u64(s.len() as u64) + t1);
    lemma_parse_ser_u64(s.len() as u64, t1);
    lemma_parse_ser_legacy_elems(s, rest);
}

pub open spec fn ser_block_elems(s: Seq<ConnectedBlockV>) -> Seq<u8>
    decreases s.len(),
{
    if s.len() == 0 {
        Seq::<u8>::empty()
    } else {
        ser_connected_block(s[0]) + ser_block_elems(s.drop_first())
    }
}

pub open spec fn ser_block_vec(s: Seq<ConnectedBlockV>) -> Seq<u8> {
    ser_u64(s.len() as u64) + ser_block_elems(s)
}

pub open spec fn parse_block_elems(b: Seq<u8>, n: nat) -> Option<(Seq<ConnectedBlockV>, Seq<u8>)>
    decreases n,
{
    if n == 0 {
        Some((Seq::<ConnectedBlockV>::empty(), b))
    } else {
        match parse_connected_block(b) {
            Some((x, r)) => match parse_block_elems(r, (n - 1) as nat) {
                Some((s, r2)) => Some((seq![x] + s, r2)),
                None => None,
            },
            None => None,
        }
    }
}

pub open spec fn parse_block_vec(b: Seq<u8>) -> Option<(Seq<ConnectedBlockV>, Seq<u8>)> {
    match parse_u64(b) {
        Some((n, r)) => parse_block_elems(r, n as nat),
        None => None,
    }
}

#[verifier::rlimit(100)]
#[verifier::spinoff_prover]
pub proof fn lemma_parse_ser_block_elems(s: Seq<ConnectedBlockV>, rest: Seq<u8>)
    requires
        forall|i: int| 0 <= i < s.len() ==> #[trigger] connected_block_fits(s[i]),
    ensures
        parse_block_elems(ser_block_elems(s) + rest, s.len() as nat) == Some((s, rest)),
    decreases s.len(),
{
    if s.len() == 0 {
        assert(ser_block_elems(s) + rest =~= rest);
        assert(Seq::<ConnectedBlockV>::empty() =~= s);
    } else {
        let tl = s.drop_first();
        assert(ser_block_elems(s) + rest =~= ser_connected_block(s[0]) + (ser_block_elems(tl)
            + rest));
        lemma_parse_ser_connected_block(s[0], ser_block_elems(tl) + rest);
        assert(parse_connected_block(ser_block_elems(s) + rest) == Some((s[0], ser_block_elems(tl) + rest)));
        assert forall|i: int| 0 <= i < tl.len() implies #[trigger] connected_block_fits(tl[i]) by {
            assert(tl[i] == s[i + 1]);
        }
        lemma_parse_ser_block_elems(tl, rest);
        assert(parse_block_elems(ser_block_elems(tl) + rest, tl.len() as nat) == Some((tl, rest)));
        assert(seq![s[0]] + tl =~= s);
    }
}

pub proof fn lemma_parse_ser_block_vec(s: Seq<ConnectedBlockV>, rest: Seq<u8>)
    requires
        s.len() <= u64::MAX,
        forall|i: int| 0 <= i < s.len() ==> #[trigger] connected_block_fits(s[i]),
    ensures
        parse_block_vec(ser_block_vec(s) + rest) == Some((s, rest)),
{
    let t1 = ser_block_elems(s) + rest;
    assert(ser_block_vec(s) + rest =~= ser_u64(s.len() as u64) + t1);
    lemma_parse_ser_u64(s.len() as u64, t1);
    lemma_parse_ser_block_elems(s, rest);
}

pub open spec fn ser_net_elems(s: Seq<ConnectedNetV>) -> Seq<u8>
    decreases s.len(),
{
    if s.len() == 0 {
        Seq::<u8>::empty()
    } else {
        ser_connected_net(s[0]) + ser_net_elems(s.drop_first())
    }
}

pub open spec fn ser_net_vec(s: Seq<ConnectedNetV>) -> Seq<u8> {
    ser_u64(s.len() as u64) + ser_net_elems(s)
}

pub open spec fn parse_net_elems(b: Seq<u8>, n: nat) -> Option<(Seq<ConnectedNetV>, Seq<u8>)>
    decreases n,
{
    if n == 0 {
        Some((Seq::<ConnectedNetV>::empty(), b))
    } else {
        match parse_connected_net(b) {
            Some((x, r)) => match parse_net_elems(r, (n - 1) as nat) {
                Some((s, r2)) => Some((seq![x] + s, r2)),
                None => None,
            },
            None => None,
        }
    }
}

pub open spec fn parse_net_vec(b: Seq<u8>) -> Option<(Seq<ConnectedNetV>, Seq<u8>)> {
    match parse_u64(b) {
        Some((n, r)) => parse_net_elems(r, n as nat),
        None => None,
    }
}

#[verifier::rlimit(100)]
#[verifier::spinoff_prover]
pub proof fn lemma_parse_ser_net_elems(s: Seq<ConnectedNetV>, rest: Seq<u8>)
    requires
        forall|i: int| 0 <= i < s.len() ==> #[trigger] connected_net_fits(s[i]),
    ensures
        parse_net_elems(ser_net_elems(s) + rest, s.len() as nat) == Some((s, rest)),
    decreases s.len(),
{
    if s.len() == 0 {
        assert(ser_net_elems(s) + rest =~= rest);
        assert(Seq::<ConnectedNetV>::empty() =~= s);
    } else {
        let tl = s.drop_first();
        assert(ser_net_elems(s) + rest =~= ser_connected_net(s[0]) + (ser_net_elems(tl) + rest));
        lemma_parse_ser_connected_net(s[0], ser_net_elems(tl) + rest);
        assert(parse_connected_net(ser_net_elems(s) + rest) == Some((s[0], ser_net_elems(tl) + rest)));
        assert forall|i: int| 0 <= i < tl.len() implies #[trigger] connected_net_fits(tl[i]) by {
            assert(tl[i] == s[i + 1]);
        }
        lemma_parse_ser_net_elems(tl, rest);
        assert(parse_net_elems(ser_net_elems(tl) + rest, tl.len() as nat) == Some((tl, rest)));
        assert(seq![s[0]] + tl =~= s);
    }
}

pub proof fn lemma_parse_ser_net_vec(s: Seq<ConnectedNetV>, rest: Seq<u8>)
    requires
        s.len() <= u64::MAX,
        forall|i: int| 0 <= i < s.len() ==> #[trigger] connected_net_fits(s[i]),
    ensures
        parse_net_vec(ser_net_vec(s) + rest) == Some((s, rest)),
{
    let t1 = ser_net_elems(s) + rest;
    assert(ser_net_vec(s) + rest =~= ser_u64(s.len() as u64) + t1);
    lemma_parse_ser_u64(s.len() as u64, t1);
    lemma_parse_ser_net_elems(s, rest);
}

// ---------------------------------------------------------------------
// Optional records: a presence byte, then the payload if present.
// ---------------------------------------------------------------------

pub open spec fn ser_opt_vsock(o: Option<ConnectedVsockV>) -> Seq<u8> {
    match o {
        Some(x) => seq![1u8] + ser_connected_vsock(x),
        None => seq![0u8],
    }
}

pub open spec fn parse_opt_vsock(b: Seq<u8>) -> Option<(Option<ConnectedVsockV>, Seq<u8>)> {
    if b.len() >= 1 && b[0] == 0 {
        Some((None, b.skip(1)))
    } else if b.len() >= 1 && b[0] == 1 {
        match parse_connected_vsock(b.skip(1)) {
            Some((x, r)) => Some((Some(x), r)),
            None => None,
        }
    } else {
        None
    }
}

pub proof fn lemma_parse_ser_opt_vsock(o: Option<ConnectedVsockV>, rest: Seq<u8>)
    requires
        o matches Some(x) ==> connected_vsock_fits(x),
    ensures
        parse_opt_vsock(ser_opt_vsock(o) + rest) == Some((o, rest)),
{
    match o {
        Some(x) => {
            let b = ser_opt_vsock(o) + rest;
            assert(b.skip(1) =~= ser_connected_vsock(x) + rest);
            lemma_parse_ser_connected_vsock(x, rest);
        },
        None => {
            let b = ser_opt_vsock(o) + rest;
            assert(b.skip(1) =~= rest);
        },
    }
}

pub open spec fn ser_opt_balloon(o: Option<ConnectedBalloonV>) -> Seq<u8> {
    match o {
        Some(x) => seq![1u8] + ser_connected_balloon(x),
        None => seq![0u8],
    }
}

pub open spec fn parse_opt_balloon(b: Seq<u8>) -> Option<(Option<ConnectedBalloonV>, Seq<u8>)> {
    if b.len() >= 1 && b[0] == 0 {
        Some((None, b.skip(1)))
    } else if b.len() >= 1 && b[0] == 1 {
        match parse_connected_balloon(b.skip(1)) {
            Some((x, r)) => Some((Some(x), r)),
            None => None,
        }
    } else {
        None
    }
}

pub proof fn lemma_parse_ser_opt_balloon(o: Option<ConnectedBalloonV>, rest: Seq<u8>)
    requires
        o matches Some(x) ==> connected_balloon_fits(x),
    ensures
        parse_opt_balloon(ser_opt_balloon(o) + rest) == Some((o, rest)),
{
    match o {
        Some(x) => {
            let b = ser_opt_balloon(o) + rest;
            assert(b.skip(1) =~= ser_connected_balloon(x) + rest);
            lemma_parse_ser_connected_balloon(x, rest);
        },
        None => {
            let b = ser_opt_balloon(o) + rest;
            assert(b.skip(1) =~= rest);
        },
    }
}

pub open spec fn ser_opt_mmds_version(o: Option<MmdsVersionState>) -> Seq<u8> {
    match o {
        Some(x) => seq![1u8] + ser_mmds_version_state(x),
        None => seq![0u8],
    }
}

pub open spec fn parse_opt_mmds_version(b: Seq<u8>) -> Option<(Option<MmdsVersionState>, Seq<u8>)> {
    if b.len() >= 1 && b[0] == 0 {
        Some((None, b.skip(1)))
    } else if b.len() >= 1 && b[0] == 1 {
        match parse_mmds_version_state(b.skip(1)) {
            Some((x, r)) => Some((Some(x), r)),
            None => None,
        }
    } else {
        None
    }
}

pub proof fn lemma_parse_ser_opt_mmds_version(o: Option<MmdsVersionState>, rest: Seq<u8>)
    ensures
        parse_opt_mmds_version(ser_opt_mmds_version(o) + rest) == Some((o, rest)),
{
    match o {
        Some(x) => {
            let b = ser_opt_mmds_version(o) + rest;
            assert(b.skip(1) =~= ser_mmds_version_state(x) + rest);
            lemma_parse_ser_mmds_version_state(x, rest);
        },
        None => {
            let b = ser_opt_mmds_version(o) + rest;
            assert(b.skip(1) =~= rest);
        },
    }
}

// ---------------------------------------------------------------------
// The aggregate record, gated by its schema version.
// ---------------------------------------------------------------------

/// Every variable-length part of the aggregate is countable by its length
/// prefix. Any `DeviceStates` held by executable code satisfies this.
pub open spec fn device_states_fits(s: DeviceStatesV) -> bool {
    &&& s.legacy_devices.len() <= u64::MAX
    &&& s.block_devices.len() <= u64::MAX
    &&& s.net_devices.len() <= u64::MAX
    &&& forall|i: int|
        0 <= i < s.legacy_devices.len() ==> #[trigger] connected_legacy_fits(s.legacy_devices[i])
    &&& forall|i: int|
        0 <= i < s.block_devices.len() ==> #[trigger] connected_block_fits(s.block_devices[i])
    &&& forall|i: int|
        0 <= i < s.net_devices.len() ==> #[trigger] connected_net_fits(s.net_devices[i])
    &&& s.vsock_device matches Some(v) ==> connected_vsock_fits(v)
    &&& s.balloon_device matches Some(v) ==> connected_balloon_fits(v)
}

/// Bytes of the aggregate at a schema version: the fields the version
/// knows, in declaration order; fields the version predates are absent.
pub open spec fn ser_device_states(s: DeviceStatesV, schema: u16) -> Seq<u8> {
    ser_legacy_vec(s.legacy_devices) + ser_block_vec(s.block_devices) + ser_net_vec(s.net_devices)
        + ser_opt_vsock(s.vsock_device) + (if schema >= 2 {
        ser_opt_balloon(s.balloon_device)
    } else {
        Seq::<u8>::empty()
    }) + (if schema >= 3 {
        ser_opt_mmds_version(s.mmds_version)
    } else {
        Seq::<u8>::empty()
    })
}

/// Value of the aggregate as seen through a schema version: a field the
/// version predates reads back as its default.
pub open spec fn at_version(s: DeviceStatesV, schema: u16) -> DeviceStatesV {
    DeviceStatesV {
        legacy_devices: s.legacy_devices,
        block_devices: s.block_devices,
        net_devices: s.net_devices,
        vsock_device: s.vsock_device,
        balloon_device: if schema >= 2 {
            s.balloon_device
        } else {
            None
        },
        mmds_version: if schema >= 3 {
            s.mmds_version
        } else {
            None
        },
    }
}

pub open spec fn parse_device_states(b: Seq<u8>, schema: u16) -> Option<(DeviceStatesV, Seq<u8>)> {
    match parse_legacy_vec(b) {
        Some((legacy_devices, r1)) => match parse_block_vec(r1) {
            Some((block_devices, r2)) => match parse_net_vec(r2) {
                Some((net_devices, r3)) => match parse_opt_vsock(r3) {
                    Some((vsock_device, r4)) => {
                        let balloon_step: Option<(Option<ConnectedBalloonV>, Seq<u8>)> = if schema
                            >= 2 {
                            parse_opt_balloon(r4)
                        } else {
                            Some((None, r4))
                        };
                        match balloon_step {
                            Some((balloon_device, r5)) => {
                                let mmds_step: Option<(Option<MmdsVersionState>, Seq<u8>)> = if schema
                                    >= 3 {
                                    parse_opt_mmds_version(r5)
                                } else {
                                    Some((None, r5))
                                };
                                match mmds_step {
                                    Some((mmds_version, r6)) => Some(
                                        (
                                            DeviceStatesV {
                                                legacy_devices,
                                                block_devices,
                                                net_devices,
                                                vsock_device,
                                                balloon_device,
                                                mmds_version,
                                            },
                                            r6,
                                        ),
                                    ),
                                    None => None,
                                }
                            },
                            None => None,
                        }
                    },
                    None => None,
                },
                None => None,
            },
            None => None,
        },
        None => None,
    }
}

/// Parsing undoes serializing: a blob written at a schema version reads
/// back, at that version, as the same aggregate with the fields the
/// version predates reset to their defaults. Bytes past the record are
/// left untouched.
#[verifier::rlimit(100)]
#[verifier::spinoff_prover]
pub proof fn lemma_device_states_round_trip(s: DeviceStatesV, schema: u16, rest: Seq<u8>)
    requires
        device_states_fits(s),
    ensures
        parse_device_states(ser_device_states(s, schema) + rest, schema) == Some(
            (at_version(s, schema), rest),
        ),
{
    let t5 = (if schema >= 3 {
        ser_opt_mmds_version(s.mmds_version)
    } else {
        Seq::<u8>::empty()
    }) + rest;
    let t4 = (if schema >= 2 {
        ser_opt_balloon(s.balloon_device)
    } else {
        Seq::<u8>::empty()
    }) + t5;
    let t3 = ser_opt_vsock(s.vsock_device) + t4;
    let t2 = ser_net_vec(s.net_devices) + t3;
    let t1 = ser_block_vec(s.block_devices) + t2;
    let b = ser_device_states(s, schema) + rest;
    assert(b =~= ser_legacy_vec(s.legacy_devices) + t1);
    lemma_parse_ser_legacy_vec(s.legacy_devices, t1);
    assert(parse_legacy_vec(b) == Some((s.legacy_devices, t1)));
    lemma_parse_ser_block_vec(s.block_devices, t2);
    assert(parse_block_vec(t1) == Some((s.block_devices, t2)));
    lemma_parse_ser_net_vec(s.net_devices, t3);
    assert(parse_net_vec(t2) == Some((s.net_devices, t3)));
    lemma_parse_ser_opt_vsock(s.vsock_device, t4);
    assert(parse_opt_vsock(t3) == Some((s.vsock_device, t4)));
    if schema >= 2 {
        lemma_parse_ser_opt_balloon(s.balloon_device, t5);
        assert(parse_opt_balloon(t4) == Some((s.balloon_device, t5)));
    } else {
        assert(t4 =~= t5);
    }
    if schema >= 3 {
        lemma_parse_ser_opt_mmds_version(s.mmds_version, rest);
        assert(parse_opt_mmds_version(t5) == Some((s.mmds_version, rest)));
    } else {
        assert(t5 =~= rest);
    }
}

// ---------------------------------------------------------------------
// Writers: executable serialization into a byte vector, proved equal to
// the specification serializers.
// ---------------------------------------------------------------------

fn write_u8(out: &mut Vec<u8>, x: u8)
    ensures
        final(out)@ == old(out)@ + ser_u8(x),
{
    out.push(x);
    proof {
        assert(out@ =~= old(out)@ + ser_u8(x));
    }
}

fn write_u16(out: &mut Vec<u8>, x: u16)
    ensures
        final(out)@ == old(out)@ + ser_u16(x),
{
    let mut bytes = u16_to_le_bytes(x);
    out.append(&mut bytes);
}

fn write_u32(out: &mut Vec<u8>, x: u32)
    ensures
        final(out)@ == old(out)@ + ser_u32(x),
{
    let mut bytes = u32_to_le_bytes(x);
    out.append(&mut bytes);
}

fn write_u64(out: &mut Vec<u8>, x: u64)
    ensures
        final(out)@ == old(out)@ + ser_u64(x),
{
    let mut bytes = u64_to_le_bytes(x);
    out.append(&mut bytes);
}

fn write_bool(out: &mut Vec<u8>, x: bool)
    ensures
        final(out)@ == old(out)@ + ser_bool(x),
{
    if x {
        write_u8(out, 1);
    } else {
        write_u8(out, 0);
    }
}

fn write_bytes(out: &mut Vec<u8>, b: &[u8])
    ensures
        final(out)@ == old(out)@ + b@,
{
    let mut i: usize = 0;
    while i < b.len()
        invariant
            i <= b@.len(),
            out@ == old(out)@ + b@.take(i as int),
        decreases b@.len() - i,
    {
        out.push(*vstd::slice::slice_index_get(b, i));
        proof {
            assert(b@.take(i as int + 1) =~= b@.take(i as int).push(b@[i as int]));
            assert(out@ =~= old(out)@ + b@.take(i as int + 1));
        }
        i = i + 1;
    }
    proof {
        assert(b@.take(b@.len() as int) =~= b@);
    }
}

fn write_string(out: &mut Vec<u8>, s: &String)
    ensures
        final(out)@ == old(out)@ + ser_string(s@),
{
    let bytes = s.as_str().as_bytes();
    write_u64(out, bytes.len() as u64);
    write_bytes(out, bytes);
    proof {
        assert(out@ =~= old(out)@ + ser_string(s@));
    }
}

fn write_mmds_version_state(out: &mut Vec<u8>, v: &MmdsVersionState)
    ensures
        final(out)@ == old(out)@ + ser_mmds_version_state(*v),
{
    match v {
        MmdsVersionState::V1 => write_u8(out, 0),
        MmdsVersionState::V2 => write_u8(out, 1),
    }
}

fn write_cache_type(out: &mut Vec<u8>, v: &CacheType)
    ensures
        final(out)@ == old(out)@ + ser_cache_type(*v),
{
    match v {
        CacheType::Unsafe => write_u8(out, 0),
        CacheType::Writeback => write_u8(out, 1),
    }
}

fn write_legacy_kind(out: &mut Vec<u8>, v: &LegacyDeviceKind)
    ensures
        final(out)@ == old(out)@ + ser_legacy_kind(*v),
{
    match v {
        LegacyDeviceKind::Serial => write_u8(out, 0),
        LegacyDeviceKind::Rtc => write_u8(out, 1),
    }
}

fn write_transport(out: &mut Vec<u8>, t: &MmioTransportState)
    ensures
        final(out)@ == old(out)@ + ser_transport(*t),
{
    write_u16(out, t.queue_select);
    write_u64(out, t.acked_features);
    write_u8(out, t.interrupt_status);
    write_u8(out, t.device_status);
    proof {
        assert(out@ =~= old(out)@ + ser_transport(*t));
    }
}

fn write_slot(out: &mut Vec<u8>, s: &MmioSlot)
    ensures
        final(out)@ == old(out)@ + ser_slot(s@),
{
    write_u64(out, s.base_address);
    write_u64(out, s.length);
    write_u32(out, s.irq);
    write_string(out, &s.device_id);
    proof {
        assert(out@ =~= old(out)@ + ser_slot(s@));
    }
}

fn write_balloon_state(out: &mut Vec<u8>, s: &BalloonState)
    ensures
        final(out)@ == old(out)@ + ser_balloon_state(*s),
{
    write_u32(out, s.amount_mib);
    write_bool(out, s.deflate_on_oom);
    write_u16(out, s.stats_polling_interval_s);
    proof {
        assert(out@ =~= old(out)@ + ser_balloon_state(*s));
    }
}

fn write_block_state(out: &mut Vec<u8>, s: &BlockState)
    ensures
        final(out)@ == old(out)@ + ser_block_state(*s),
{
    write_bool(out, s.is_root_device);
    write_bool(out, s.is_read_only);
    write_cache_type(out, &s.cache_type);
    write_u64(out, s.flushed_metadata);
    proof {
        assert(out@ =~= old(out)@ + ser_block_state(*s));
    }
}

fn write_opt_mmds_ns(out: &mut Vec<u8>, o: &Option<MmdsNetworkStackState>)
    ensures
        final(out)@ == old(out)@ + ser_opt_mmds_ns(*o),
{
    match o {
        Some(ns) => {
            write_u8(out, 1);
            write_u32(out, ns.ipv4_addr);
            proof {
                assert(out@ =~= old(out)@ + ser_opt_mmds_ns(*o));
            }
        },
        None => {
            write_u8(out, 0);
        },
    }
}

fn write_net_state(out: &mut Vec<u8>, s: &NetState)
    ensures
        final(out)@ == old(out)@ + ser_net_state(s@),
{
    write_string(out, &s.host_dev_name);
    write_opt_mmds_ns(out, &s.mmds_ns);
    proof {
        assert(out@ =~= old(out)@ + ser_net_state(s@));
    }
}

fn write_vsock_state(out: &mut Vec<u8>, s: &VsockState)
    ensures
        final(out)@ == old(out)@ + ser_vsock_state(s@),
{
    write_string(out, &s.backend.uds_path);
    write_u64(out, s.frontend.cid);
    proof {
        assert(out@ =~= old(out)@ + ser_vsock_state(s@));
    }
}

fn write_connected_balloon(out: &mut Vec<u8>, c: &ConnectedBalloonState)
    ensures
        final(out)@ == old(out)@ + ser_connected_balloon(c@),
{
    write_string(out, &c.device_id);
    write_balloon_state(out, &c.device_state);
    write_transport(out, &c.transport_state);
    write_slot(out, &c.mmio_slot);
    proof {
        assert(out@ =~= old(out)@ + ser_connected_balloon(c@));
    }
}

fn write_connected_block(out: &mut Vec<u8>, c: &ConnectedBlockState)
    ensures
        final(out)@ == old(out)@ + ser_connected_block(c@),
{
    write_string(out, &c.device_id);
    write_block_state(out, &c.device_state);
    write_transport(out, &c.transport_state);
    write_slot(out, &c.mmio_slot);
    proof {
        assert(out@ =~= old(out)@ + ser_connected_block(c@));
    }
}

fn write_connected_net(out: &mut Vec<u8>, c: &ConnectedNetState)
    ensures
        final(out)@ == old(out)@ + ser_connected_net(c@),
{
    write_string(out, &c.device_id);
    write_net_state(out, &c.device_state);
    write_transport(out, &c.transport_state);
    write_slot(out, &c.mmio_slot);
    proof {
        assert(out@ =~= old(out)@ + ser_connected_net(c@));
    }
}

fn write_connected_vsock(out: &mut Vec<u8>, c: &ConnectedVsockState)
    ensures
        final(out)@ == old(out)@ + ser_connected_vsock(c@),
{
    write_string(out, &c.device_id);
    write_vsock_state(out, &c.device_state);
    write_transport(out, &c.transport_state);
    write_slot(out, &c.mmio_slot);
    proof {
        assert(out@ =~= old(out)@ + ser_connected_vsock(c@));
    }
}

fn write_connected_legacy(out: &mut Vec<u8>, c: &ConnectedLegacyState)
    ensures
        final(out)@ == old(out)@ + ser_connected_legacy(c@),
{
    write_legacy_kind(out, &c.type_);
    write_slot(out, &c.mmio_slot);
    proof {
        assert(out@ =~= old(out)@ + ser_connected_legacy(c@));
    }
}

#[verifier::rlimit(50)]
#[verifier::spinoff_prover]
proof fn lemma_ser_legacy_elems_snoc(s: Seq<ConnectedLegacyV>, x: ConnectedLegacyV)
    ensures
        ser_legacy_elems(s.push(x)) == ser_legacy_elems(s) + ser_connected_legacy(x),
    decreases s.len(),
{
    let p = s.push(x);
    if s.len() == 0 {
        assert(p.len() == 1);
        assert(p[0] == x);
        assert(p.drop_first() =~= Seq::<ConnectedLegacyV>::empty());
        assert(ser_legacy_elems(p.drop_first()) == Seq::<u8>::empty());
        assert(ser_legacy_elems(p) == ser_connected_legacy(x) + Seq::<u8>::empty());
        assert(ser_legacy_elems(s) == Seq::<u8>::empty());
        assert(ser_legacy_elems(p) =~= ser_legacy_elems(s) + ser_connected_legacy(x));
    } else {
        assert(p.drop_first() =~= s.drop_first().push(x));
        lemma_ser_legacy_elems_snoc(s.drop_first(), x);
        assert(ser_legacy_elems(s) + ser_connected_legacy(x) =~= ser_connected_legacy(s[0]) + (
        ser_legacy_elems(s.drop_first()) + ser_connected_legacy(x)));
    }
}

#[verifier::rlimit(50)]
#[verifier::spinoff_prover]
proof fn lemma_ser_block_elems_snoc(s: Seq<ConnectedBlockV>, x: ConnectedBlockV)
    ensures
        ser_block_elems(s.push(x)) == ser_block_elems(s) + ser_connected_block(x),
    decreases s.len(),
{
    let p = s.push(x);
    if s.len() == 0 {
        assert(p.len() == 1);
        assert(p[0] == x);
        assert(p.drop_first() =~= Seq::<ConnectedBlockV>::empty());
        assert(ser_block_elems(p.drop_first()) == Seq::<u8>::empty());
        assert(ser_block_elems(p) == ser_connected_block(x) + Seq::<u8>::empty());
        assert(ser_block_elems(s) == Seq::<u8>::empty());
        assert(ser_block_elems(p) =~= ser_block_elems(s) + ser_connected_block(x));
    } else {
        assert(p.drop_first() =~= s.drop_first().push(x));
        lemma_ser_block_elems_snoc(s.drop_first(), x);
        assert(ser_block_elems(s) + ser_connected_block(x) =~= ser_connected_block(s[0]) + (
        ser_block_elems(s.drop_first()) + ser_connected_block(x)));
    }
}

#[verifier::rlimit(50)]
#[verifier::spinoff_prover]
proof fn lemma_ser_net_elems_snoc(s: Seq<ConnectedNetV>, x: ConnectedNetV)
    ensures
        ser_net_elems(s.push(x)) == ser_net_elems(s) + ser_connected_net(x),
    decreases s.len(),
{
    let p = s.push(x);
    if s.len() == 0 {
        assert(p.len() == 1);
        assert(p[0] == x);
        assert(p.drop_first() =~= Seq::<ConnectedNetV>::empty());
        assert(ser_net_elems(p.drop_first()) == Seq::<u8>::empty());
        assert(ser_net_elems(p) == ser_connected_net(x) + Seq::<u8>::empty());
        assert(ser_net_elems(s) == Seq::<u8>::empty());
        assert(ser_net_elems(p) =~= ser_net_elems(s) + ser_connected_net(x));
    } else {
        assert(p.drop_first() =~= s.drop_first().push(x));
        lemma_ser_net_elems_snoc(s.drop_first(), x);
        assert(ser_net_elems(s) + ser_connected_net(x) =~= ser_connected_net(s[0]) + (
        ser_net_elems(s.drop_first()) + ser_connected_net(x)));
    }
}

fn write_legacy_vec(out: &mut Vec<u8>, v: &Vec<ConnectedLegacyState>)
    ensures
        final(out)@ == old(out)@ + ser_legacy_vec(views_of_legacy(v@)),
{
    write_u64(out, v.len() as u64);
    let mut i: usize = 0;
    while i < v.len()
        invariant
            i <= v@.len(),
            out@ == old(out)@ + ser_u64(v@.len() as u64) + ser_legacy_elems(
                views_of_legacy(v@.take(i as int)),
            ),
        decreases v@.len() - i,
    {
        write_connected_legacy(out, &v[i]);
        proof {
            assert(views_of_legacy(v@.take(i as int + 1)) =~= views_of_legacy(
                v@.take(i as int),
            ).push(v@[i as int]@));
            lemma_ser_legacy_elems_snoc(views_of_legacy(v@.take(i as int)), v@[i as int]@);
            assert(out@ =~= old(out)@ + ser_u64(v@.len() as u64) + ser_legacy_elems(
                views_of_legacy(v@.take(i as int + 1)),
            ));
        }
        i = i + 1;
    }
    proof {
        assert(v@.take(v@.len() as int) =~= v@);
        assert(out@ =~= old(out)@ + ser_legacy_vec(views_of_legacy(v@)));
    }
}

fn write_block_vec(out: &mut Vec<u8>, v: &Vec<ConnectedBlockState>)
    ensures
        final(out)@ == old(out)@ + ser_block_vec(views_of_blocks(v@)),
{
    write_u64(out, v.len() as u64);
    let mut i: usize = 0;
    while i < v.len()
        invariant
            i <= v@.len(),
            out@ == old(out)@ + ser_u64(v@.len() as u64) + ser_block_elems(
                views_of_blocks(v@.take(i as int)),
            ),
        decreases v@.len() - i,
    {
        write_connected_block(out, &v[i]);
        proof {
            assert(views_of_blocks(v@.take(i as int + 1)) =~= views_of_blocks(
                v@.take(i as int),
            ).push(v@[i as int]@));
            lemma_ser_block_elems_snoc(views_of_blocks(v@.take(i as int)), v@[i as int]@);
            assert(out@ =~= old(out)@ + ser_u64(v@.len() as u64) + ser_block_elems(
                views_of_blocks(v@.take(i as int + 1)),
            ));
        }
        i = i + 1;
    }
    proof {
        assert(v@.take(v@.len() as int) =~= v@);
        assert(out@ =~= old(out)@ + ser_block_vec(views_of_blocks(v@)));
    }
}

fn write_net_vec(out: &mut Vec<u8>, v: &Vec<ConnectedNetState>)
    ensures
        final(out)@ == old(out)@ + ser_net_vec(views_of_nets(v@)),
{
    write_u64(out, v.len() as u64);
    let mut i: usize = 0;
    while i < v.len()
        invariant
            i <= v@.len(),
            out@ == old(out)@ + ser_u64(v@.len() as u64) + ser_net_elems(
                views_of_nets(v@.take(i as int)),
            ),
        decreases v@.len() - i,
    {
        write_connected_net(out, &v[i]);
        proof {
            assert(views_of_nets(v@.take(i as int + 1)) =~= views_of_nets(v@.take(i as int)).push(
                v@[i as int]@,
            ));
            lemma_ser_net_elems_snoc(views_of_nets(v@.take(i as int)), v@[i as int]@);
            assert(out@ =~= old(out)@ + ser_u64(v@.len() as u64) + ser_net_elems(
                views_of_nets(v@.take(i as int + 1)),
            ));
        }
        i = i + 1;
    }
    proof {
        assert(v@.take(v@.len() as int) =~= v@);
        assert(out@ =~= old(out)@ + ser_net_vec(views_of_nets(v@)));
    }
}

fn write_opt_vsock(out: &mut Vec<u8>, o: &Option<ConnectedVsockState>)
    ensures
        final(out)@ == old(out)@ + ser_opt_vsock(match *o {
            Some(ref c) => Some(c@),
            None => None,
        }),
{
    match o {
        Some(c) => {
            write_u8(out, 1);
            write_connected_vsock(out, c);
            proof {
                assert(out@ =~= old(out)@ + (seq![1u8] + ser_connected_vsock(c@)));
            }
        },
        None => {
            write_u8(out, 0);
        },
    }
}

fn write_opt_balloon(out: &mut Vec<u8>, o: &Option<ConnectedBalloonState>)
    ensures
        final(out)@ == old(out)@ + ser_opt_balloon(match *o {
            Some(ref c) => Some(c@),
            None => None,
        }),
{
    match o {
        Some(c) => {
            write_u8(out, 1);
            write_connected_balloon(out, c);
            proof {
                assert(out@ =~= old(out)@ + (seq![1u8] + ser_connected_balloon(c@)));
            }
        },
        None => {
            write_u8(out, 0);
        },
    }
}

fn write_opt_mmds_version(out: &mut Vec<u8>, o: &Option<MmdsVersionState>)
    ensures
        final(out)@ == old(out)@ + ser_opt_mmds_version(*o),
{
    match o {
        Some(v) => {
            write_u8(out, 1);
            write_mmds_version_state(out, v);
            proof {
                assert(out@ =~= old(out)@ + (seq![1u8] + ser_mmds_version_state(*v)));
            }
        },
        None => {
            write_u8(out, 0);
        },
    }
}

// ---------------------------------------------------------------------
// Readers: executable parsing out of a byte buffer, proved equal to the
// specification parsers. Every reader takes the buffer and a cursor and
// returns the value it read together with the new cursor.
// ---------------------------------------------------------------------

/// Relies on `String::from_utf8` of std: it succeeds exactly on byte
/// vectors that are valid UTF-8, and the returned string's characters are
/// the decoding of those bytes.
#[verifier::external_body]
fn string_from_utf8(bytes: Vec<u8>) -> (r: Option<String>)
    ensures
        r is Some <==> valid_utf8(bytes@),
        r matches Some(s) ==> s@ == decode_utf8(bytes@),
{
    String::from_utf8(bytes).ok()
}

fn read_u8(b: &[u8], pos: usize) -> (r: Option<(u8, usize)>)
    requires
        pos <= b@.len(),
    ensures
        match r {
            Some(xp) => {
                &&& pos <= xp.1 <= b@.len()
                &&& parse_u8(b@.skip(pos as int)) == Some((xp.0, b@.skip(xp.1 as int)))
            },
            None => parse_u8(b@.skip(pos as int)) is None,
        },
{
    if b.len() - pos >= 1 {
        let x = *vstd::slice::slice_index_get(b, pos);
        proof {
            assert(b@.skip(pos as int)[0] == b@[pos as int]);
            assert(b@.skip(pos as int).skip(1) =~= b@.skip(pos as int + 1));
        }
        Some((x, pos + 1))
    } else {
        None
    }
}

fn read_u16(b: &[u8], pos: usize) -> (r: Option<(u16, usize)>)
    requires
        pos <= b@.len(),
    ensures
        match r {
            Some(xp) => {
                &&& pos <= xp.1 <= b@.len()
                &&& parse_u16(b@.skip(pos as int)) == Some((xp.0, b@.skip(xp.1 as int)))
            },
            None => parse_u16(b@.skip(pos as int)) is None,
        },
{
    if b.len() - pos >= 2 {
        let x = u16_from_le_bytes(vstd::slice::slice_subrange(b, pos, pos + 2));
        proof {
            assert(b@.subrange(pos as int, pos as int + 2) =~= b@.skip(pos as int).take(2));
            assert(b@.skip(pos as int).skip(2) =~= b@.skip(pos as int + 2));
        }
        Some((x, pos + 2))
    } else {
        None
    }
}

fn read_u32(b: &[u8], pos: usize) -> (r: Option<(u32, usize)>)
    requires
        pos <= b@.len(),
    ensures
        match r {
            Some(xp) => {
                &&& pos <= xp.1 <= b@.len()
                &&& parse_u32(b@.skip(pos as int)) == Some((xp.0, b@.skip(xp.1 as int)))
            },
            None => parse_u32(b@.skip(pos as int)) is None,
        },
{
    if b.len() - pos >= 4 {
        let x = u32_from_le_bytes(vstd::slice::slice_subrange(b, pos, pos + 4));
        proof {
            assert(b@.subrange(pos as int, pos as int + 4) =~= b@.skip(pos as int).take(4));
            assert(b@.skip(pos as int).skip(4) =~= b@.skip(pos as int + 4));
        }
        Some((x, pos + 4))
    } else {
        None
    }
}

fn read_u64(b: &[u8], pos: usize) -> (r: Option<(u64, usize)>)
    requires
        pos <= b@.len(),
    ensures
        match r {
            Some(xp) => {
                &&& pos <= xp.1 <= b@.len()
                &&& parse_u64(b@.skip(pos as int)) == Some((xp.0, b@.skip(xp.1 as int)))
            },
            None => parse_u64(b@.skip(pos as int)) is None,
        },
{
    if b.len() - pos >= 8 {
        let x = u64_from_le_bytes(vstd::slice::slice_subrange(b, pos, pos + 8));
        proof {
            assert(b@.subrange(pos as int, pos as int + 8) =~= b@.skip(pos as int).take(8));
            assert(b@.skip(pos as int).skip(8) =~= b@.skip(pos as int + 8));
        }
        Some((x, pos + 8))
    } else {
        None
    }
}

fn read_bool(b: &[u8], pos: usize) -> (r: Option<(bool, usize)>)
    requires
        pos <= b@.len(),
    ensures
        match r {
            Some(xp) => {
                &&& pos <= xp.1 <= b@.len()
                &&& parse_bool(b@.skip(pos as int)) == Some((xp.0, b@.skip(xp.1 as int)))
            },
            None => parse_bool(b@.skip(pos as int)) is None,
        },
{
    match read_u8(b, pos) {
        Some((x, p)) => {
            if x == 0 {
                Some((false, p))
            } else if x == 1 {
                Some((true, p))
            } else {
                None
            }
        },
        None => None,
    }
}

fn read_string(b: &[u8], pos: usize) -> (r: Option<(String, usize)>)
    requires
        pos <= b@.len(),
    ensures
        match r {
            Some(sp) => {
                &&& pos <= sp.1 <= b@.len()
                &&& parse_string(b@.skip(pos as int)) == Some((sp.0@, b@.skip(sp.1 as int)))
            },
            None => parse_string(b@.skip(pos as int)) is None,
        },
{
    match read_u64(b, pos) {
        Some((n, p1)) => {
            if n > (b.len() - p1) as u64 {
                return None;
            }
            let count = n as usize;
            let blen: usize = b.len();
            proof {
                assert(blen == b@.len());
            }
            let mut raw: Vec<u8> = Vec::new();
            let mut j: usize = 0;
            while j < count
        invariant
            pos <= p1 <= b@.len(),
            p1 + count <= b@.len(),
            b@.len() <= usize::MAX,
            j <= count,
            raw@ == b@.subrange(p1 as int, p1 as int + j as int),
        decreases count - j,
            {
                raw.push(*vstd::slice::slice_index_get(b, p1 + j));
                proof {
                    assert(b@.subrange(p1 as int, p1 as int + j as int + 1) =~= b@.subrange(
                        p1 as int,
                        p1 as int + j as int,
                    ).push(b@[p1 as int + j as int]));
                }
                j = j + 1;
            }
            let ghost rawv = raw@;
            proof {
                assert(rawv =~= b@.skip(p1 as int).take(n as int));
            }
            match string_from_utf8(raw) {
                Some(s) => {
                    proof {
                        assert(b@.skip(p1 as int).skip(n as int) =~= b@.skip(
                            p1 as int + count as int,
                        ));
                    }
                    Some((s, p1 + count))
                },
                None => None,
            }
        },
        None => None,
    }
}

fn read_mmds_version_state(b: &[u8], pos: usize) -> (r: Option<(MmdsVersionState, usize)>)
    requires
        pos <= b@.len(),
    ensures
        match r {
            Some(xp) => {
                &&& pos <= xp.1 <= b@.len()
                &&& parse_mmds_version_state(b@.skip(pos as int)) == Some(
                    (xp.0, b@.skip(xp.1 as int)),
                )
            },
            None => parse_mmds_version_state(b@.skip(pos as int)) is None,
        },
{
    match read_u8(b, pos) {
        Some((x, p)) => {
            if x == 0 {
                Some((MmdsVersionState::V1, p))
            } else if x == 1 {
                Some((MmdsVersionState::V2, p))
            } else {
                None
            }
        },
        None => None,
    }
}

fn read_cache_type(b: &[u8], pos: usize) -> (r: Option<(CacheType, usize)>)
    requires
        pos <= b@.len(),
    ensures
        match r {
            Some(xp) => {
                &&& pos <= xp.1 <= b@.len()
                &&& parse_cache_type(b@.skip(pos as int)) == Some((xp.0, b@.skip(xp.1 as int)))
            },
            None => parse_cache_type(b@.skip(pos as int)) is None,
        },
{
    match read_u8(b, pos) {
        Some((x, p)) => {
            if x == 0 {
                Some((CacheType::Unsafe, p))
            } else if x == 1 {
                Some((CacheType::Writeback, p))
            } else {
                None
            }
        },
        None => None,
    }
}

fn read_legacy_kind(b: &[u8], pos: usize) -> (r: Option<(LegacyDeviceKind, usize)>)
    requires
        pos <= b@.len(),
    ensures
        match r {
            Some(xp) => {
                &&& pos <= xp.1 <= b@.len()
                &&& parse_legacy_kind(b@.skip(pos as int)) == Some((xp.0, b@.skip(xp.1 as int)))
            },
            None => parse_legacy_kind(b@.skip(pos as int)) is None,
        },
{
    match read_u8(b, pos) {
        Some((x, p)) => {
            if x == 0 {
                Some((LegacyDeviceKind::Serial, p))
            } else if x == 1 {
                Some((LegacyDeviceKind::Rtc, p))
            } else {
                None
            }
        },
        None => None,
    }
}

fn read_transport(b: &[u8], pos: usize) -> (r: Option<(MmioTransportState, usize)>)
    requires
        pos <= b@.len(),
    ensures
        match r {
            Some(xp) => {
                &&& pos <= xp.1 <= b@.len()
                &&& parse_transport(b@.skip(pos as int)) == Some((xp.0, b@.skip(xp.1 as int)))
            },
            None => parse_transport(b@.skip(pos as int)) is None,
        },
{
    let (queue_select, p1) = match read_u16(b, pos) {
        Some(v) => v,
        None => {
            return None;
        },
    };
    let (acked_features, p2) = match read_u64(b, p1) {
        Some(v) => v,
        None => {
            return None;
        },
    };
    let (interrupt_status, p3) = match read_u8(b, p2) {
        Some(v) => v,
        None => {
            return None;
        },
    };
    let (device_status, p4) = match read_u8(b, p3) {
        Some(v) => v,
        None => {
            return None;
        },
    };
    Some((MmioTransportState { queue_select, acked_features, interrupt_status, device_status }, p4))
}

fn read_slot(b: &[u8], pos: usize) -> (r: Option<(MmioSlot, usize)>)
    requires
        pos <= b@.len(),
    ensures
        match r {
            Some(xp) => {
                &&& pos <= xp.1 <= b@.len()
                &&& parse_slot(b@.skip(pos as int)) == Some((xp.0@, b@.skip(xp.1 as int)))
            },
            None => parse_slot(b@.skip(pos as int)) is None,
        },
{
    let (base_address, p1) = match read_u64(b, pos) {
        Some(v) => v,
        None => {
            return None;
        },
    };
    let (length, p2) = match read_u64(b, p1) {
        Some(v) => v,
        None => {
            return None;
        },
    };
    let (irq, p3) = match read_u32(b, p2) {
        Some(v) => v,
        None => {
            return None;
        },
    };
    let (device_id, p4) = match read_string(b, p3) {
        Some(v) => v,
        None => {
            return None;
        },
    };
    Some((MmioSlot { base_address, length, irq, device_id }, p4))
}

fn read_balloon_state(b: &[u8], pos: usize) -> (r: Option<(BalloonState, usize)>)
    requires
        pos <= b@.len(),
    ensures
        match r {
            Some(xp) => {
                &&& pos <= xp.1 <= b@.len()
                &&& parse_balloon_state(b@.skip(pos as int)) == Some((xp.0, b@.skip(xp.1 as int)))
            },
            None => parse_balloon_state(b@.skip(pos as int)) is None,
        },
{
    let (amount_mib, p1) = match read_u32(b, pos) {
        Some(v) => v,
        None => {
            return None;
        },
    };
    let (deflate_on_oom, p2) = match read_bool(b, p1) {
        Some(v) => v,
        None => {
            return None;
        },
    };
    let (stats_polling_interval_s, p3) = match read_u16(b, p2) {
        Some(v) => v,
        None => {
            return None;
        },
    };
    Some((BalloonState { amount_mib, deflate_on_oom, stats_polling_interval_s }, p3))
}

fn read_block_state(b: &[u8], pos: usize) -> (r: Option<(BlockState, usize)>)
    requires
        pos <= b@.len(),
    ensures
        match r {
            Some(xp) => {
                &&& pos <= xp.1 <= b@.len()
                &&& parse_block_state(b@.skip(pos as int)) == Some((xp.0, b@.skip(xp.1 as int)))
            },
            None => parse_block_state(b@.skip(pos as int)) is None,
        },
{
    let (is_root_device, p1) = match read_bool(b, pos) {
        Some(v) => v,
        None => {
            return None;
        },
    };
    let (is_read_only, p2) = match read_bool(b, p1) {
        Some(v) => v,
        None => {
            return None;
        },
    };
    let (cache_type, p3) = match read_cache_type(b, p2) {
        Some(v) => v,
        None => {
            return None;
        },
    };
    let (flushed_metadata, p4) = match read_u64(b, p3) {
        Some(v) => v,
        None => {
            return None;
        },
    };
    Some((BlockState { is_root_device, is_read_only, cache_type, flushed_metadata }, p4))
}

fn read_opt_mmds_ns(b: &[u8], pos: usize) -> (r: Option<(Option<MmdsNetworkStackState>, usize)>)
    requires
        pos <= b@.len(),
    ensures
        match r {
            Some(xp) => {
                &&& pos <= xp.1 <= b@.len()
                &&& parse_opt_mmds_ns(b@.skip(pos as int)) == Some((xp.0, b@.skip(xp.1 as int)))
            },
            None => parse_opt_mmds_ns(b@.skip(pos as int)) is None,
        },
{
    match read_u8(b, pos) {
        Some((tag, p1)) => {
            if tag == 0 {
                Some((None, p1))
            } else if tag == 1 {
                match read_u32(b, p1) {
                    Some((ipv4_addr, p2)) => Some((Some(MmdsNetworkStackState { ipv4_addr }), p2)),
                    None => None,
                }
            } else {
                None
            }
        },
        None => None,
    }
}

fn read_net_state(b: &[u8], pos: usize) -> (r: Option<(NetState, usize)>)
    requires
        pos <= b@.len(),
    ensures
        match r {
            Some(xp) => {
                &&& pos <= xp.1 <= b@.len()
                &&& parse_net_state(b@.skip(pos as int)) == Some((xp.0@, b@.skip(xp.1 as int)))
            },
            None => parse_net_state(b@.skip(pos as int)) is None,
        },
{
    let (host_dev_name, p1) = match read_string(b, pos) {
        Some(v) => v,
        None => {
            return None;
        },
    };
    let (mmds_ns, p2) = match read_opt_mmds_ns(b, p1) {
        Some(v) => v,
        None => {
            return None;
        },
    };
    Some((NetState { host_dev_name, mmds_ns }, p2))
}

fn read_vsock_state(b: &[u8], pos: usize) -> (r: Option<(VsockState, usize)>)
    requires
        pos <= b@.len(),
    ensures
        match r {
            Some(xp) => {
                &&& pos <= xp.1 <= b@.len()
                &&& parse_vsock_state(b@.skip(pos as int)) == Some((xp.0@, b@.skip(xp.1 as int)))
            },
            None => parse_vsock_state(b@.skip(pos as int)) is None,
        },
{
    let (uds_path, p1) = match read_string(b, pos) {
        Some(v) => v,
        None => {
            return None;
        },
    };
    let (cid, p2) = match read_u64(b, p1) {
        Some(v) => v,
        None => {
            return None;
        },
    };
    Some(
        (
            VsockState {
                backend: VsockBackendState { uds_path },
                frontend: VsockFrontendState { cid },
            },
            p2,
        ),
    )
}

fn read_connected_balloon(b: &[u8], pos: usize) -> (r: Option<(ConnectedBalloonState, usize)>)
    requires
        pos <= b@.len(),
    ensures
        match r {
            Some(xp) => {
                &&& pos <= xp.1 <= b@.len()
                &&& parse_connected_balloon(b@.skip(pos as int)) == Some(
                    (xp.0@, b@.skip(xp.1 as int)),
                )
            },
            None => parse_connected_balloon(b@.skip(pos as int)) is None,
        },
{
    let (device_id, p1) = match read_string(b, pos) {
        Some(v) => v,
        None => {
            return None;
        },
    };
    let (device_state, p2) = match read_balloon_state(b, p1) {
        Some(v) => v,
        None => {
            return None;
        },
    };
    let (transport_state, p3) = match read_transport(b, p2) {
        Some(v) => v,
        None => {
            return None;
        },
    };
    let (mmio_slot, p4) = match read_slot(b, p3) {
        Some(v) => v,
        None => {
            return None;
        },
    };
    Some((ConnectedBalloonState { device_id, device_state, transport_state, mmio_slot }, p4))
}

fn read_connected_block(b: &[u8], pos: usize) -> (r: Option<(ConnectedBlockState, usize)>)
    requires
        pos <= b@.len(),
    ensures
        match r {
            Some(xp) => {
                &&& pos <= xp.1 <= b@.len()
                &&& parse_connected_block(b@.skip(pos as int)) == Some(
                    (xp.0@, b@.skip(xp.1 as int)),
                )
            },
            None => parse_connected_block(b@.skip(pos as int)) is None,
        },
{
    let (device_id, p1) = match read_string(b, pos) {
        Some(v) => v,
        None => {
            return None;
        },
    };
    let (device_state, p2) = match read_block_state(b, p1) {
        Some(v) => v,
        None => {
            return None;
        },
    };
    let (transport_state, p3) = match read_transport(b, p2) {
        Some(v) => v,
        None => {
            return None;
        },
    };
    let (mmio_slot, p4) = match read_slot(b, p3) {
        Some(v) => v,
        None => {
            return None;
        },
    };
    Some((ConnectedBlockState { device_id, device_state, transport_state, mmio_slot }, p4))
}

fn read_connected_net(b: &[u8], pos: usize) -> (r: Option<(ConnectedNetState, usize)>)
    requires
        pos <= b@.len(),
    ensures
        match r {
            Some(xp) => {
                &&& pos <= xp.1 <= b@.len()
                &&& parse_connected_net(b@.skip(pos as int)) == Some((xp.0@, b@.skip(xp.1 as int)))
            },
            None => parse_connected_net(b@.skip(pos as int)) is None,
        },
{
    let (device_id, p1) = match read_string(b, pos) {
        Some(v) => v,
        None => {
            return None;
        },
    };
    let (device_state, p2) = match read_net_state(b, p1) {
        Some(v) => v,
        None => {
            return None;
        },
    };
    let (transport_state, p3) = match read_transport(b, p2) {
        Some(v) => v,
        None => {
            return None;
        },
    };
    let (mmio_slot, p4) = match read_slot(b, p3) {
        Some(v) => v,
        None => {
            return None;
        },
    };
    Some((ConnectedNetState { device_id, device_state, transport_state, mmio_slot }, p4))
}

fn read_connected_vsock(b: &[u8], pos: usize) -> (r: Option<(ConnectedVsockState, usize)>)
    requires
        pos <= b@.len(),
    ensures
        match r {
            Some(xp) => {
                &&& pos <= xp.1 <= b@.len()
                &&& parse_connected_vsock(b@.skip(pos as int)) == Some(
                    (xp.0@, b@.skip(xp.1 as int)),
                )
            },
            None => parse_connected_vsock(b@.skip(pos as int)) is None,
        },
{
    let (device_id, p1) = match read_string(b, pos) {
        Some(v) => v,
        None => {
            return None;
        },
    };
    let (device_state, p2) = match read_vsock_state(b, p1) {
        Some(v) => v,
        None => {
            return None;
        },
    };
    let (transport_state, p3) = match read_transport(b, p2) {
        Some(v) => v,
        None => {
            return None;
        },
    };
    let (mmio_slot, p4) = match read_slot(b, p3) {
        Some(v) => v,
        None => {
            return None;
        },
    };
    Some((ConnectedVsockState { device_id, device_state, transport_state, mmio_slot }, p4))
}

fn read_connected_legacy(b: &[u8], pos: usize) -> (r: Option<(ConnectedLegacyState, usize)>)
    requires
        pos <= b@.len(),
    ensures
        match r {
            Some(xp) => {
                &&& pos <= xp.1 <= b@.len()
                &&& parse_connected_legacy(b@.skip(pos as int)) == Some(
                    (xp.0@, b@.skip(xp.1 as int)),
                )
            },
            None => parse_connected_legacy(b@.skip(pos as int)) is None,
        },
{
    let (type_, p1) = match read_legacy_kind(b, pos) {
        Some(v) => v,
        None => {
            return None;
        },
    };
    let (mmio_slot, p2) = match read_slot(b, p1) {
        Some(v) => v,
        None => {
            return None;
        },
    };
    Some((ConnectedLegacyState { type_, mmio_slot }, p2))
}

fn read_legacy_vec(b: &[u8], pos: usize) -> (r: Option<(Vec<ConnectedLegacyState>, usize)>)
    requires
        pos <= b@.len(),
    ensures
        match r {
            Some(vp) => {
                &&& pos <= vp.1 <= b@.len()
                &&& parse_legacy_vec(b@.skip(pos as int)) == Some(
                    (views_of_legacy(vp.0@), b@.skip(vp.1 as int)),
                )
            },
            None => parse_legacy_vec(b@.skip(pos as int)) is None,
        },
{
    let (n, p_start) = match read_u64(b, pos) {
        Some(v) => v,
        None => {
            return None;
        },
    };
    let mut acc: Vec<ConnectedLegacyState> = Vec::new();
    let mut p: usize = p_start;
    let mut i: u64 = 0;
    proof {
        let step0 = parse_legacy_elems(b@.skip(p_start as int), n as nat);
        match step0 {
            Some(sr) => {
                assert(views_of_legacy(acc@) + sr.0 =~= sr.0);
            },
            None => {},
        }
    }
    while i < n
        invariant
            pos <= p <= b@.len(),
            i <= n,
            acc@.len() == i,
            parse_legacy_elems(b@.skip(p_start as int), n as nat) == (match parse_legacy_elems(
                b@.skip(p as int),
                (n - i) as nat,
            ) {
                Some(sr) => Some((views_of_legacy(acc@) + sr.0, sr.1)),
                None => None::<(Seq<ConnectedLegacyV>, Seq<u8>)>,
            }),
            parse_legacy_vec(b@.skip(pos as int)) == parse_legacy_elems(
                b@.skip(p_start as int),
                n as nat,
            ),
        decreases n - i,
    {
        match read_connected_legacy(b, p) {
            Some((x, p2)) => {
                proof {
                    let step = parse_legacy_elems(b@.skip(p2 as int), (n - i - 1) as nat);
                    assert(views_of_legacy(acc@.push(x)) =~= views_of_legacy(acc@).push(x@));
                    match step {
                        Some(sr) => {
                            assert(views_of_legacy(acc@) + (seq![x@] + sr.0) =~= views_of_legacy(
                                acc@.push(x),
                            ) + sr.0);
                        },
                        None => {},
                    }
                }
                acc.push(x);
                p = p2;
                i = i + 1;
            },
            None => {
                return None;
            },
        }
    }
    proof {
        assert(views_of_legacy(acc@) + Seq::<ConnectedLegacyV>::empty() =~= views_of_legacy(acc@));
    }
    Some((acc, p))
}

fn read_block_vec(b: &[u8], pos: usize) -> (r: Option<(Vec<ConnectedBlockState>, usize)>)
    requires
        pos <= b@.len(),
    ensures
        match r {
            Some(vp) => {
                &&& pos <= vp.1 <= b@.len()
                &&& parse_block_vec(b@.skip(pos as int)) == Some(
                    (views_of_blocks(vp.0@), b@.skip(vp.1 as int)),
                )
            },
            None => parse_block_vec(b@.skip(pos as int)) is None,
        },
{
    let (n, p_start) = match read_u64(b, pos) {
        Some(v) => v,
        None => {
            return None;
        },
    };
    let mut acc: Vec<ConnectedBlockState> = Vec::new();
    let mut p: usize = p_start;
    let mut i: u64 = 0;
    proof {
        let step0 = parse_block_elems(b@.skip(p_start as int), n as nat);
        match step0 {
            Some(sr) => {
                assert(views_of_blocks(acc@) + sr.0 =~= sr.0);
            },
            None => {},
        }
    }
    while i < n
        invariant
            pos <= p <= b@.len(),
            i <= n,
            acc@.len() == i,
            parse_block_elems(b@.skip(p_start as int), n as nat) == (match parse_block_elems(
                b@.skip(p as int),
                (n - i) as nat,
            ) {
                Some(sr) => Some((views_of_blocks(acc@) + sr.0, sr.1)),
                None => None::<(Seq<ConnectedBlockV>, Seq<u8>)>,
            }),
            parse_block_vec(b@.skip(pos as int)) == parse_block_elems(
                b@.skip(p_start as int),
                n as nat,
            ),
        decreases n - i,
    {
        match read_connected_block(b, p) {
            Some((x, p2)) => {
                proof {
                    let step = parse_block_elems(b@.skip(p2 as int), (n - i - 1) as nat);
                    assert(views_of_blocks(acc@.push(x)) =~= views_of_blocks(acc@).push(x@));
                    match step {
                        Some(sr) => {
                            assert(views_of_blocks(acc@) + (seq![x@] + sr.0) =~= views_of_blocks(
                                acc@.push(x),
                            ) + sr.0);
                        },
                        None => {},
                    }
                }
                acc.push(x);
                p = p2;
                i = i + 1;
            },
            None => {
                return None;
            },
        }
    }
    proof {
        assert(views_of_blocks(acc@) + Seq::<ConnectedBlockV>::empty() =~= views_of_blocks(acc@));
    }
    Some((acc, p))
}

#[verifier::rlimit(100)]
#[verifier::spinoff_prover]
fn read_net_vec(b: &[u8], pos: usize) -> (r: Option<(Vec<ConnectedNetState>, usize)>)
    requires
        pos <= b@.len(),
    ensures
        match r {
            Some(vp) => {
                &&& pos <= vp.1 <= b@.len()
                &&& parse_net_vec(b@.skip(pos as int)) == Some(
                    (views_of_nets(vp.0@), b@.skip(vp.1 as int)),
                )
            },
            None => parse_net_vec(b@.skip(pos as int)) is None,
        },
{
    let (n, p_start) = match read_u64(b, pos) {
        Some(v) => v,
        None => {
            return None;
        },
    };
    let mut acc: Vec<ConnectedNetState> = Vec::new();
    let mut p: usize = p_start;
    let mut i: u64 = 0;
    proof {
        let step0 = parse_net_elems(b@.skip(p_start as int), n as nat);
        match step0 {
            Some(sr) => {
                assert(views_of_nets(acc@) + sr.0 =~= sr.0);
            },
            None => {},
        }
    }
    while i < n
        invariant
            pos <= p <= b@.len(),
            i <= n,
            acc@.len() == i,
            parse_net_elems(b@.skip(p_start as int), n as nat) == (match parse_net_elems(
                b@.skip(p as int),
                (n - i) as nat,
            ) {
                Some(sr) => Some((views_of_nets(acc@) + sr.0, sr.1)),
                None => None::<(Seq<ConnectedNetV>, Seq<u8>)>,
            }),
            parse_net_vec(b@.skip(pos as int)) == parse_net_elems(
                b@.skip(p_start as int),
                n as nat,
            ),
        decreases n - i,
    {
        match read_connected_net(b, p) {
            Some((x, p2)) => {
                proof {
                    let step = parse_net_elems(b@.skip(p2 as int), (n - i - 1) as nat);
                    assert(views_of_nets(acc@.push(x)) =~= views_of_nets(acc@).push(x@));
                    match step {
                        Some(sr) => {
                            assert(views_of_nets(acc@) + (seq![x@] + sr.0) =~= views_of_nets(
                                acc@.push(x),
                            ) + sr.0);
                        },
                        None => {},
                    }
                }
                acc.push(x);
                p = p2;
                i = i + 1;
            },
            None => {
                return None;
            },
        }
    }
    proof {
        assert(views_of_nets(acc@) + Seq::<ConnectedNetV>::empty() =~= views_of_nets(acc@));
    }
    Some((acc, p))
}

fn read_opt_vsock(b: &[u8], pos: usize) -> (r: Option<(Option<ConnectedVsockState>, usize)>)
    requires
        pos <= b@.len(),
    ensures
        match r {
            Some(vp) => {
                &&& pos <= vp.1 <= b@.len()
                &&& parse_opt_vsock(b@.skip(pos as int)) == Some(
                    (
                        match vp.0 {
                            Some(c) => Some(c@),
                            None => None,
                        },
                        b@.skip(vp.1 as int),
                    ),
                )
            },
            None => parse_opt_vsock(b@.skip(pos as int)) is None,
        },
{
    match read_u8(b, pos) {
        Some((tag, p1)) => {
            if tag == 0 {
                Some((None, p1))
            } else if tag == 1 {
                match read_connected_vsock(b, p1) {
                    Some((x, p2)) => Some((Some(x), p2)),
                    None => None,
                }
            } else {
                None
            }
        },
        None => None,
    }
}

fn read_opt_balloon(b: &[u8], pos: usize) -> (r: Option<(Option<ConnectedBalloonState>, usize)>)
    requires
        pos <= b@.len(),
    ensures
        match r {
            Some(vp) => {
                &&& pos <= vp.1 <= b@.len()
                &&& parse_opt_balloon(b@.skip(pos as int)) == Some(
                    (
                        match vp.0 {
                            Some(c) => Some(c@),
                            None => None,
                        },
                        b@.skip(vp.1 as int),
                    ),
                )
            },
            None => parse_opt_balloon(b@.skip(pos as int)) is None,
        },
{
    match read_u8(b, pos) {
        Some((tag, p1)) => {
            if tag == 0 {
                Some((None, p1))
            } else if tag == 1 {
                match read_connected_balloon(b, p1) {
                    Some((x, p2)) => Some((Some(x), p2)),
                    None => None,
                }
            } else {
                None
            }
        },
        None => None,
    }
}

fn read_opt_mmds_version(b: &[u8], pos: usize) -> (r: Option<(Option<MmdsVersionState>, usize)>)
    requires
        pos <= b@.len(),
    ensures
        match r {
            Some(vp) => {
                &&& pos <= vp.1 <= b@.len()
                &&& parse_opt_mmds_version(b@.skip(pos as int)) == Some(
                    (vp.0, b@.skip(vp.1 as int)),
                )
            },
            None => parse_opt_mmds_version(b@.skip(pos as int)) is None,
        },
{
    match read_u8(b, pos) {
        Some((tag, p1)) => {
            if tag == 0 {
                Some((None, p1))
            } else if tag == 1 {
                match read_mmds_version_state(b, p1) {
                    Some((x, p2)) => Some((Some(x), p2)),
                    None => None,
                }
            } else {
                None
            }
        },
        None => None,
    }
}

impl DeviceStates {
    /// Turns the aggregate into the versioned byte blob.
    ///
    /// The format version selects, through the map, the schema version of
    /// the record; the serialize hooks run first and decide whether the
    /// fields present may be written at that schema version at all.
    /// Writing succeeds exactly when no hook objects: only a balloon
    /// carried into a schema version below 2 is refused.
    pub fn serialize(&self, version_map: &VersionMap, target_version: u16) -> (r: Result<
        Vec<u8>,
        Error,
    >)
        requires
            version_map.wf(),
            1 <= target_version <= version_map@.len(),
        ensures
            ({
                let schema = version_map@[target_version - 1];
                &&& (r is Ok <==> !(schema < 2 && self.balloon_device is Some))
                &&& (r matches Ok(bytes) ==> bytes@ == ser_device_states(self@, schema))
                &&& (r matches Err(e) ==> e matches Error::SchemaSemantic(m) && m@
                    == "Target version does not implement the virtio-balloon device."@)
            }),
    {
        let schema = version_map.get_type_version(target_version);
        match self.balloon_serialize(schema) {
            Ok(()) => {},
            Err(e) => {
                return Err(e);
            },
        }
        match self.mmds_version_serialize(schema) {
            Ok(()) => {},
            Err(e) => {
                return Err(e);
            },
        }
        let mut out: Vec<u8> = Vec::new();
        write_legacy_vec(&mut out, &self.legacy_devices);
        write_block_vec(&mut out, &self.block_devices);
        write_net_vec(&mut out, &self.net_devices);
        write_opt_vsock(&mut out, &self.vsock_device);
        if schema >= 2 {
            write_opt_balloon(&mut out, &self.balloon_device);
        }
        if schema >= 3 {
            write_opt_mmds_version(&mut out, &self.mmds_version);
        }
        proof {
            assert(out@ =~= ser_device_states(self@, schema));
        }
        Ok(out)
    }

    /// Reads the aggregate back out of a byte blob.
    ///
    /// The format version selects, through the map, the schema version
    /// the blob was written at; fields that schema version predates read
    /// back as their defaults. Bytes past the record are ignored, so a
    /// caller may hand in a larger buffer. Reading succeeds exactly when
    /// the buffer starts with a well-formed record of that schema
    /// version; otherwise every byte is left uninterpreted and the value
    /// is an [`Error::InvalidFormat`].
    pub fn deserialize(bytes: &[u8], version_map: &VersionMap, source_version: u16) -> (r: Result<
        DeviceStates,
        Error,
    >)
        requires
            version_map.wf(),
            1 <= source_version <= version_map@.len(),
        ensures
            ({
                let schema = version_map@[source_version - 1];
                &&& (r is Ok <==> parse_device_states(bytes@, schema) is Some)
                &&& (r matches Ok(ds) ==> parse_device_states(bytes@, schema) matches Some(pr)
                    && ds@ == pr.0)
                &&& (r is Err ==> r == Err::<DeviceStates, Error>(Error::InvalidFormat))
            }),
    {
        let schema = version_map.get_type_version(source_version);
        proof {
            assert(bytes@.skip(0) =~= bytes@);
        }
        let (legacy_devices, p1) = match read_legacy_vec(bytes, 0) {
            Some(v) => v,
            None => {
                return Err(Error::InvalidFormat);
            },
        };
        let (block_devices, p2) = match read_block_vec(bytes, p1) {
            Some(v) => v,
            None => {
                return Err(Error::InvalidFormat);
            },
        };
        let (net_devices, p3) = match read_net_vec(bytes, p2) {
            Some(v) => v,
            None => {
                return Err(Error::InvalidFormat);
            },
        };
        let (vsock_device, p4) = match read_opt_vsock(bytes, p3) {
            Some(v) => v,
            None => {
                return Err(Error::InvalidFormat);
            },
        };
        let (balloon_device, p5) = if schema >= 2 {
            match read_opt_balloon(bytes, p4) {
                Some(v) => v,
                None => {
                    return Err(Error::InvalidFormat);
                },
            }
        } else {
            (None, p4)
        };
        let (mmds_version, _p6) = if schema >= 3 {
            match read_opt_mmds_version(bytes, p5) {
                Some(v) => v,
                None => {
                    return Err(Error::InvalidFormat);
                },
            }
        } else {
            (None, p5)
        };
        let states = DeviceStates {
            legacy_devices,
            block_devices,
            net_devices,
            vsock_device,
            balloon_device,
            mmds_version,
        };
        proof {
            let pr = parse_device_states(bytes@, schema);
            assert(pr matches Some(p) && states@ =~= p.0);
        }
        Ok(states)
    }
}

} // verus!
