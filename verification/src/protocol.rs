//! Requests of an operator and their answers.

use crate::database::AttachmentId;
use crate::engine::volume::{Verdict, VolumeConfig};
use crate::types::{HostId, VsetId};
use vstd::prelude::*;

verus! {

/// How a database vset is taken away from its VM.
#[derive(Clone, Copy, PartialEq, Eq, Debug, Structural)]
pub enum DetachMode {
    /// What was accepted before is made durable first.
    Graceful,
    /// Nothing more is accepted, at once.
    Forced,
}

#[derive(Clone, Copy, PartialEq, Eq, Debug, Structural)]
pub enum AdminError {
    Rejected,
    Stale,
    Unavailable,
}

#[derive(Clone, Copy, PartialEq, Eq, Debug, Structural)]
pub enum AdminSuccess {
    DatabaseAttached { vset: VsetId, attachment: AttachmentId },
    DatabaseDetachStarted { vset: VsetId, attachment: AttachmentId, forced: bool },
    DatabaseDetached { vset: VsetId, attachment: AttachmentId },
    CheckpointDone { volume: u64, epoch: u64 },
    BaseKept { base: u64 },
    BaseDeleted { base: u64 },
    VolumeForked { volume: u64, verdict: Verdict },
    ReplicaPlacementUpdated,
}

pub type AdminResult = Result<AdminSuccess, AdminError>;

/// A request of an operator about volumes and bases.
#[derive(Clone, Copy, PartialEq, Eq, Debug, Structural)]
pub enum AdminCall {
    CreateVolume { volume: u64, config: VolumeConfig, from_base: Option<u64> },
    KeepBase { volume: u64, base: u64 },
    DeleteBase { base: u64 },
    Checkpoint { retry: u64, volume: u64 },
    RestoreVolume { volume: u64 },
    MigrateOut { volume: u64, to: HostId },
}

impl AdminCall {
    pub open spec fn volume_spec(self) -> Option<u64> {
        match self {
            AdminCall::CreateVolume { volume, .. } => Some(volume),
            AdminCall::KeepBase { volume, .. } => Some(volume),
            AdminCall::Checkpoint { volume, .. } => Some(volume),
            AdminCall::RestoreVolume { volume } => Some(volume),
            AdminCall::MigrateOut { volume, .. } => Some(volume),
            AdminCall::DeleteBase { .. } => None,
        }
    }

    /// The volume a request is about.
    #[verifier::when_used_as_spec(volume_spec)]
    pub fn volume(self) -> (volume: Option<u64>)
        ensures
            volume == self.volume_spec(),
    {
        match self {
            AdminCall::CreateVolume { volume, .. } => Some(volume),
            AdminCall::KeepBase { volume, .. } => Some(volume),
            AdminCall::Checkpoint { volume, .. } => Some(volume),
            AdminCall::RestoreVolume { volume } => Some(volume),
            AdminCall::MigrateOut { volume, .. } => Some(volume),
            AdminCall::DeleteBase { .. } => None,
        }
    }

    /// Whether a host that acts under authority for `serving` and for the
    /// volume takes the request on.
    pub fn admitted(self, serving: bool, volume_authorized: bool) -> (result: Result<(), AdminError>)
        ensures
            result == (if serving && (self.volume() is None || volume_authorized) {
                Ok::<(), AdminError>(())
            } else {
                Err::<(), AdminError>(AdminError::Unavailable)
            }),
    {
        if serving && (self.volume().is_none() || volume_authorized) {
            Ok(())
        } else {
            Err(AdminError::Unavailable)
        }
    }
}

} // verus!
