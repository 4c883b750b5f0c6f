//! Models of the subsystem's collaborators on the VMM side: the high-level
//! resource configuration, the MMDS data store, and the event manager.
//!
//! Only their interfaces matter to the snapshot subsystem; each is modeled
//! by the plain values the traversals read and write.

use vstd::prelude::*;

use crate::devices::{Balloon, Block, Net, Vsock};
use crate::records::{
    BalloonState, BlockState, MmdsVersionState, NetState, NetStateV, VsockBackendState,
    VsockFrontendState, VsockState, VsockStateV,
};

verus! {

/// Version of the MMDS data store.
#[derive(Clone, Copy, Debug, PartialEq, Eq, Structural)]
pub enum MmdsVersion {
    V1,
    V2,
}

/// The store version a persisted version field stands for.
pub open spec fn spec_version_from_state(s: MmdsVersionState) -> MmdsVersion {
    match s {
        MmdsVersionState::V1 => MmdsVersion::V1,
        MmdsVersionState::V2 => MmdsVersion::V2,
    }
}

/// The persisted version field a store version is written as.
pub open spec fn spec_state_from_version(v: MmdsVersion) -> MmdsVersionState {
    match v {
        MmdsVersion::V1 => MmdsVersionState::V1,
        MmdsVersion::V2 => MmdsVersionState::V2,
    }
}

impl core::convert::From<MmdsVersionState> for MmdsVersion {
    fn from(state: MmdsVersionState) -> (r: MmdsVersion) {
        match state {
            MmdsVersionState::V1 => MmdsVersion::V1,
            MmdsVersionState::V2 => MmdsVersion::V2,
        }
    }
}

impl vstd::std_specs::convert::FromSpecImpl<MmdsVersionState> for MmdsVersion {
    open spec fn obeys_from_spec() -> bool {
        true
    }

    open spec fn from_spec(v: MmdsVersionState) -> MmdsVersion {
        spec_version_from_state(v)
    }
}

impl core::convert::From<MmdsVersion> for MmdsVersionState {
    fn from(version: MmdsVersion) -> (r: MmdsVersionState) {
        match version {
            MmdsVersion::V1 => MmdsVersionState::V1,
            MmdsVersion::V2 => MmdsVersionState::V2,
        }
    }
}

impl vstd::std_specs::convert::FromSpecImpl<MmdsVersion> for MmdsVersionState {
    open spec fn obeys_from_spec() -> bool {
        true
    }

    open spec fn from_spec(v: MmdsVersion) -> MmdsVersionState {
        spec_state_from_version(v)
    }
}

/// The MMDS data store, as the subsystem sees it: its protocol version and
/// the instance it is scoped to.
#[derive(Debug)]
pub struct Mmds {
    pub version: MmdsVersion,
    pub instance_id: String,
}

/// Mathematical value of an [`Mmds`].
#[verifier::ext_equal]
pub struct MmdsV {
    pub version: MmdsVersion,
    pub instance_id: Seq<char>,
}

impl View for Mmds {
    type V = MmdsV;

    open spec fn view(&self) -> MmdsV {
        MmdsV { version: self.version, instance_id: self.instance_id@ }
    }
}

/// Views of a sequence of net configurations, element by element.
pub open spec fn views_of_net_states(s: Seq<NetState>) -> Seq<NetStateV> {
    s.map_values(|x: NetState| x@)
}

/// Views of the device ids subscribed to an event manager.
pub open spec fn subscriber_ids(s: Seq<String>) -> Seq<Seq<char>> {
    s.map_values(|x: String| x@)
}

/// A restored device, handed to the VMM resources so the high-level
/// configuration reflects it.
#[derive(Debug)]
pub enum SharedDeviceType {
    SharedBlock(Block),
    SharedNetwork(Net),
    SharedBalloon(Balloon),
    SharedVsock(Vsock),
}

/// The high-level VMM configuration that restore mirrors devices into.
#[derive(Debug)]
pub struct VmResources {
    /// Balloon configuration, present once a balloon was restored.
    pub balloon: Option<BalloonState>,
    /// Block configurations, one per restored block device, in order.
    pub block_configs: Vec<BlockState>,
    /// Net configurations, one per restored net device, in order.
    pub net_configs: Vec<NetState>,
    /// Vsock configuration, present once a vsock was restored.
    pub vsock: Option<VsockState>,
    /// The MMDS data store, if one was initialized.
    pub mmds: Option<Mmds>,
}

/// Mathematical value of a [`VmResources`].
#[verifier::ext_equal]
pub struct VmResourcesV {
    pub balloon: Option<BalloonState>,
    pub block_configs: Seq<BlockState>,
    pub net_configs: Seq<NetStateV>,
    pub vsock: Option<VsockStateV>,
    pub mmds: Option<MmdsV>,
}

impl View for VmResources {
    type V = VmResourcesV;

    open spec fn view(&self) -> VmResourcesV {
        VmResourcesV {
            balloon: self.balloon,
            block_configs: self.block_configs@,
            net_configs: views_of_net_states(self.net_configs@),
            vsock: match self.vsock {
                Some(ref s) => Some(s@),
                None => None,
            },
            mmds: match self.mmds {
                Some(ref m) => Some(m@),
                None => None,
            },
        }
    }
}

impl VmResources {
    /// A fresh configuration with nothing set.
    pub fn new() -> (r: VmResources)
        ensures
            r@.balloon is None,
            r@.block_configs == Seq::<BlockState>::empty(),
            r@.net_configs == Seq::<NetStateV>::empty(),
            r@.vsock is None,
            r@.mmds is None,
    {
        let r = VmResources {
            balloon: None,
            block_configs: Vec::new(),
            net_configs: Vec::new(),
            vsock: None,
            mmds: None,
        };
        proof {
            assert(views_of_net_states(r.net_configs@) =~= Seq::<NetStateV>::empty());
        }
        r
    }

    /// Mirrors one restored device into the configuration.
    pub fn update_from_restored_device(&mut self, device: SharedDeviceType)
        ensures
            final(self)@.mmds == old(self)@.mmds,
            match device {
                SharedDeviceType::SharedBalloon(d) => {
                    &&& final(self)@.balloon == Some(d.state_spec())
                    &&& final(self)@.block_configs == old(self)@.block_configs
                    &&& final(self)@.net_configs == old(self)@.net_configs
                    &&& final(self)@.vsock == old(self)@.vsock
                },
                SharedDeviceType::SharedBlock(d) => {
                    &&& final(self)@.balloon == old(self)@.balloon
                    &&& final(self)@.block_configs == old(self)@.block_configs.push(d.state_spec())
                    &&& final(self)@.net_configs == old(self)@.net_configs
                    &&& final(self)@.vsock == old(self)@.vsock
                },
                SharedDeviceType::SharedNetwork(d) => {
                    &&& final(self)@.balloon == old(self)@.balloon
                    &&& final(self)@.block_configs == old(self)@.block_configs
                    &&& final(self)@.net_configs == old(self)@.net_configs.push(d.state_spec())
                    &&& final(self)@.vsock == old(self)@.vsock
                },
                SharedDeviceType::SharedVsock(d) => {
                    &&& final(self)@.balloon == old(self)@.balloon
                    &&& final(self)@.block_configs == old(self)@.block_configs
                    &&& final(self)@.net_configs == old(self)@.net_configs
                    &&& final(self)@.vsock == Some(
                        VsockStateV {
                            backend: crate::records::VsockBackendStateV {
                                uds_path: d.backend.uds_path@,
                            },
                            frontend: VsockFrontendState { cid: d.cid },
                        },
                    )
                },
            },
    {
        match device {
            SharedDeviceType::SharedBalloon(d) => {
                self.balloon = Some(d.save());
            },
            SharedDeviceType::SharedBlock(d) => {
                self.block_configs.push(d.save());
            },
            SharedDeviceType::SharedNetwork(d) => {
                let state = d.save();
                self.net_configs.push(state);
                proof {
                    assert(views_of_net_states(self.net_configs@) =~= views_of_net_states(
                        old(self).net_configs@,
                    ).push(d.state_spec()));
                }
            },
            SharedDeviceType::SharedVsock(d) => {
                let frontend = d.save();
                let backend = d.backend().save();
                self.vsock = Some(VsockState { backend, frontend });
            },
        }
    }

    /// Authoritative MMDS version setter, scoped to the instance.
    pub fn set_mmds_version(&mut self, version: MmdsVersion, instance_id: &str)
        ensures
            final(self)@.mmds == Some(MmdsV { version, instance_id: instance_id@ }),
            final(self)@.balloon == old(self)@.balloon,
            final(self)@.block_configs == old(self)@.block_configs,
            final(self)@.net_configs == old(self)@.net_configs,
            final(self)@.vsock == old(self)@.vsock,
    {
        self.mmds = Some(Mmds { version, instance_id: instance_id.to_owned() });
    }

    /// Idempotent MMDS initializer: keeps an existing store, creates a
    /// default one otherwise.
    pub fn mmds_or_default(&mut self)
        ensures
            final(self)@.mmds == (match old(self)@.mmds {
                Some(m) => Some(m),
                None => Some(MmdsV { version: MmdsVersion::V1, instance_id: Seq::<char>::empty() }),
            }),
            final(self)@.balloon == old(self)@.balloon,
            final(self)@.block_configs == old(self)@.block_configs,
            final(self)@.net_configs == old(self)@.net_configs,
            final(self)@.vsock == old(self)@.vsock,
    {
        if self.mmds.is_none() {
            let empty = String::new();
            proof {
                assert(empty@ =~= Seq::<char>::empty());
            }
            self.mmds = Some(Mmds { version: MmdsVersion::V1, instance_id: empty });
        }
    }
}

/// The event manager, as the subsystem sees it: the set of device
/// subscriptions it holds until shutdown, by device identifier.
#[derive(Debug)]
pub struct EventManager {
    pub subscribers: Vec<String>,
}

impl EventManager {
    /// A fresh event manager with no subscribers.
    pub fn new() -> (r: EventManager)
        ensures
            r.subscribers@ == Seq::<String>::empty(),
    {
        EventManager { subscribers: Vec::new() }
    }

    /// Adds a restored device as an event subscriber, so its interrupts
    /// and queue notifications drive forward progress once the guest
    /// resumes.
    pub fn add_subscriber(&mut self, device_id: String)
        ensures
            final(self).subscribers@ == old(self).subscribers@.push(device_id),
    {
        self.subscribers.push(device_id);
    }
}

} // verus!
