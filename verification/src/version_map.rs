//! The version map: for every snapshot format version it records which
//! schema version of the aggregate `DeviceStates` record the blob holds.
//!
//! Every call into the codec takes a map and a format version; the codec
//! looks the record's schema version up here and emits or expects exactly
//! the fields that schema version carries.

use vstd::prelude::*;

verus! {

/// Maps a snapshot format version to the schema version of the aggregate
/// device-states record inside it.
///
/// Format versions are numbered from 1. The map for format version `v` is
/// held at index `v - 1` of the underlying table.
#[derive(Debug)]
pub struct VersionMap {
    versions: Vec<u16>,
}

impl View for VersionMap {
    type V = Seq<u16>;

    closed spec fn view(&self) -> Seq<u16> {
        self.versions@
    }
}

impl VersionMap {
    /// A well-formed map knows at least format version 1 and has a format
    /// version count that itself fits a version number.
    pub open spec fn wf(&self) -> bool {
        1 <= self@.len() <= u16::MAX
    }

    /// The newest format version the map describes.
    pub open spec fn spec_latest_version(&self) -> u16 {
        self@.len() as u16
    }

    /// A fresh map: format version 1 carries schema version 1.
    pub fn new() -> (r: VersionMap)
        ensures
            r.wf(),
            r@ == seq![1u16],
    {
        let mut versions: Vec<u16> = Vec::new();
        versions.push(1);
        proof {
            assert(versions@ =~= seq![1u16]);
        }
        VersionMap { versions }
    }

    /// Opens a new format version, which starts out carrying the same
    /// schema version as the previous one.
    pub fn new_version(&mut self)
        requires
            old(self).wf(),
            old(self)@.len() < u16::MAX,
        ensures
            final(self).wf(),
            final(self)@ == old(self)@.push(old(self)@.last()),
    {
        let last = self.versions[self.versions.len() - 1];
        self.versions.push(last);
    }

    /// Sets the schema version of the device-states record for the newest
    /// format version.
    pub fn set_type_version(&mut self, type_version: u16)
        requires
            old(self).wf(),
        ensures
            final(self).wf(),
            final(self)@ == old(self)@.update(old(self)@.len() - 1, type_version),
    {
        let last: usize = self.versions.len() - 1;
        self.versions.set(last, type_version);
    }

    /// The newest format version the map describes.
    pub fn latest_version(&self) -> (r: u16)
        requires
            self.wf(),
        ensures
            r == self.spec_latest_version(),
    {
        self.versions.len() as u16
    }

    /// Schema version of the device-states record at the given format
    /// version.
    pub fn get_type_version(&self, format_version: u16) -> (r: u16)
        requires
            self.wf(),
            1 <= format_version <= self@.len(),
        ensures
            r == self@[format_version - 1],
    {
        self.versions[(format_version - 1) as usize]
    }
}

} // verus!
