//! The unified error kind surfaced to the VMM orchestrator.

use vstd::prelude::*;

verus! {

/// Why a slot fails the device manager's sanity check.
#[derive(Clone, Copy, Debug, PartialEq, Eq, Structural)]
pub enum DeviceManagerError {
    /// The base address lies below the manager's MMIO window.
    SlotOutOfWindow,
    /// The interrupt number lies outside the manager's IRQ range.
    IrqOutOfRange,
    /// The address range overlaps a previously registered device.
    SlotCollision,
    /// The interrupt number is already taken by a registered device.
    IrqCollision,
}

/// Errors for (de)serialization of the MMIO device manager.
#[derive(Clone, Debug, PartialEq)]
pub enum Error {
    /// The balloon device rejected its sub-state on restore.
    Balloon,
    /// A block device rejected its sub-state on restore.
    Block,
    /// The slot sanity check or the MMIO/IRQ registration failed.
    DeviceManager(DeviceManagerError),
    /// Reconstruction of an MMIO transport failed.
    MmioTransport,
    /// Construction of a legacy device failed.
    Legacy,
    /// A net device rejected its sub-state on restore.
    Net,
    /// The vsock frontend rejected its sub-state on restore.
    Vsock,
    /// The vsock UNIX backend rejected its sub-state on restore.
    VsockUnixBackend,
    /// The MMDS version setter rejected the configuration.
    MmdsConfig,
    /// Saving at a target version that is incompatible with the fields
    /// present in the record.
    SchemaSemantic(String),
    /// The byte buffer does not hold a well-formed record at the given
    /// source version.
    InvalidFormat,
}

} // verus!
