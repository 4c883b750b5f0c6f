//! Snapshot support for an MMIO device manager.
//!
//! A running virtual machine monitor keeps its memory-mapped virtio devices
//! in an ordered directory. This crate turns that directory into a versioned
//! `DeviceStates` record, encodes the record as a self-describing byte blob
//! under a version map, and rebuilds an equivalent directory - devices,
//! transports, event subscriptions and VMM resource bookkeeping - from such
//! a blob.

pub mod codec;
pub mod devices;
pub mod errors;
pub mod manager;
pub mod records;
pub mod resources;
pub mod version_map;
