//! What a host keeps about itself and the vsets it serves.

use super::volume::{VolumeConfig, VolumeState};
use crate::database::{AttachmentId, DatabaseFile};
use crate::head::ReplicaCommitInfo;
use crate::journal::{DatabaseMeta, JournalRecord, LeafPointer, PageLoc, VsetConfig};
use crate::types::{HostId, VmId, VsetId};
use std::collections::{BTreeMap, BTreeSet};
use vstd::prelude::*;

verus! {

broadcast use vstd::std_specs::btree::group_btree_axioms;

/// Who may use a database vset right now.
#[derive(Clone, Copy, PartialEq, Eq, Debug, Structural)]
pub enum AttachmentPhase {
    Detached,
    Attached(AttachmentId),
    /// Finishing what was accepted before a graceful detach.
    Draining(AttachmentId),
    /// Cut off by a forced detach.
    Forced(AttachmentId),
}

impl AttachmentPhase {
    pub open spec fn holder_spec(self) -> Option<AttachmentId> {
        match self {
            AttachmentPhase::Attached(id) => Some(id),
            AttachmentPhase::Draining(id) => Some(id),
            AttachmentPhase::Forced(id) => Some(id),
            AttachmentPhase::Detached => None,
        }
    }

    /// The attachment that has not been released yet.
    #[verifier::when_used_as_spec(holder_spec)]
    pub fn holder(self) -> (id: Option<AttachmentId>)
        ensures
            id == self.holder_spec(),
    {
        match self {
            AttachmentPhase::Attached(id) => Some(id),
            AttachmentPhase::Draining(id) => Some(id),
            AttachmentPhase::Forced(id) => Some(id),
            AttachmentPhase::Detached => None,
        }
    }

    pub open spec fn serves_spec(self, attachment: AttachmentId) -> bool {
        self == AttachmentPhase::Attached(attachment) || self == AttachmentPhase::Draining(
            attachment,
        )
    }

    /// Whether requests of `attachment` may still take effect.
    #[verifier::when_used_as_spec(serves_spec)]
    pub fn serves(self, attachment: AttachmentId) -> (yes: bool)
        ensures
            yes == self.serves_spec(attachment),
    {
        match self {
            AttachmentPhase::Attached(id) => id == attachment,
            AttachmentPhase::Draining(id) => id == attachment,
            _ => false,
        }
    }
}

/// Volatile state of a database vset's current user.
pub struct DatabaseRuntime {
    pub phase: AttachmentPhase,
    pub handles: BTreeMap<u64, DatabaseFile>,
    /// The attachment whose request is being worked on.
    pub active: Option<AttachmentId>,
    /// Mutations up to here must be acknowledged before a graceful detach ends.
    pub drain_barrier: u64,
}

/// What currently changes a vset's committed state.
#[derive(Clone, Copy, PartialEq, Eq, Debug, Structural)]
pub enum MutationOwner {
    Capture,
    Checkpoint,
    Database,
}

/// Which exclusive operations a vset is in.
#[derive(Clone, Copy, PartialEq, Eq, Debug, Structural)]
pub struct Operations {
    pub mutation: Option<MutationOwner>,
    pub migration: bool,
}

impl Operations {
    pub open spec fn mutation_blocked_spec(&self) -> bool {
        self.mutation is Some || self.migration
    }

    #[verifier::when_used_as_spec(mutation_blocked_spec)]
    pub fn mutation_blocked(&self) -> (blocked: bool)
        ensures
            blocked == self.mutation_blocked_spec(),
    {
        self.mutation.is_some() || self.migration
    }

    /// Who is changing the committed state, if anyone.
    pub fn mutation_owner(&self) -> (owner: Option<MutationOwner>)
        ensures
            owner == self.mutation,
    {
        self.mutation
    }

    /// Takes the right to change the committed state, if it is free.
    pub fn try_start_mutation(&mut self, owner: MutationOwner) -> (started: bool)
        ensures
            started == !old(self).mutation_blocked(),
            *final(self) == (if started {
                Operations { mutation: Some(owner), ..*old(self) }
            } else {
                *old(self)
            }),
    {
        if self.mutation_blocked() {
            return false;
        }
        self.mutation = Some(owner);
        true
    }

    /// Gives the right back, if `owner` holds it.
    pub fn finish_mutation(&mut self, owner: MutationOwner)
        ensures
            *final(self) == (if old(self).mutation == Some(owner) {
                Operations { mutation: None, ..*old(self) }
            } else {
                *old(self)
            }),
    {
        if let Some(current) = self.mutation {
            if current == owner {
                self.mutation = None;
            }
        }
    }
}

/// A vset as this host serves it.
pub struct VsetState {
    pub config: VsetConfig,
    pub incarnation: u64,
    /// Recovered or created, and open for requests.
    pub ready: bool,
    /// Namespace of what this host writes for the vset.
    pub fence: u64,
    pub mutation_seq: u64,
    pub next_seq: u64,
    pub next_seg: u64,
    pub next_gen: u64,
    pub next_leaf: u64,
    pub page_locs: BTreeMap<u64, PageLoc>,
    pub overlay: BTreeMap<u64, PageLoc>,
    pub leaf_table: BTreeMap<u64, LeafPointer>,
    pub hydrated_spans: BTreeSet<u64>,
    pub failed_spans: BTreeSet<u64>,
    /// Leaves being loaded, and who waits for them.
    pub leaf_waiters: BTreeMap<u64, Vec<u64>>,
    /// Segments and leaves that the archive has.
    pub backed_segments: Vec<(u64, u64)>,
    pub backed_leaves: Vec<(u64, u64)>,
    /// Leaves loaded so far.
    pub hydrations: u64,
    pub database: DatabaseMeta,
    pub database_runtime: DatabaseRuntime,
    /// Guest synchronisations up to here were acknowledged.
    pub sync_ack_through: u64,
    /// Guest synchronisations up to here are in a local record.
    pub local_covered_through: u64,
    pub best_record: Option<JournalRecord>,
    /// Local records by number: their writer and what they cover.
    pub record_writes: BTreeMap<u64, (u64, u64)>,
    pub segment_blobs: Vec<SegmentBlob>,
    pub leaf_blobs: Vec<LeafBlob>,
    /// Requests waiting for the current mutation to end.
    pub mutation_waiters: Vec<u64>,
    pub operations: Operations,
    /// Being handed to another host.
    pub outbound: bool,
    pub peer_source: Option<HostId>,
    pub peer_source_offer_fence: u64,
}

/// A segment on the local device, with its length.
#[derive(Clone, Copy, PartialEq, Eq, Debug, Structural)]
pub struct SegmentBlob {
    pub fence: u64,
    pub id: u64,
    pub bytes: u64,
}

/// A leaf on the local device: its length, and the vset's own segments that its
/// pages lie in, each by writer and number.
pub struct LeafBlob {
    pub pointer: LeafPointer,
    pub bytes: u64,
    pub segments: Vec<(u64, u64)>,
}

impl VsetState {
    /// A vset that nothing was written to yet.
    pub fn fresh(config: VsetConfig, incarnation: u64) -> (state: VsetState)
        ensures
            state.is_fresh(config, incarnation),
    {
        VsetState {
            config,
            incarnation,
            ready: false,
            fence: 0,
            mutation_seq: 0,
            next_seq: 0,
            next_seg: 0,
            next_gen: 0,
            next_leaf: 0,
            page_locs: BTreeMap::new(),
            overlay: BTreeMap::new(),
            leaf_table: BTreeMap::new(),
            hydrated_spans: BTreeSet::new(),
            failed_spans: BTreeSet::new(),
            leaf_waiters: BTreeMap::new(),
            backed_segments: Vec::new(),
            backed_leaves: Vec::new(),
            hydrations: 0,
            database: DatabaseMeta::default(),
            database_runtime: DatabaseRuntime {
                phase: AttachmentPhase::Detached,
                handles: BTreeMap::new(),
                active: None,
                drain_barrier: 0,
            },
            sync_ack_through: 0,
            local_covered_through: 0,
            best_record: None,
            record_writes: BTreeMap::new(),
            segment_blobs: Vec::new(),
            leaf_blobs: Vec::new(),
            mutation_waiters: Vec::new(),
            operations: Operations { mutation: None, migration: false },
            outbound: false,
            peer_source: None,
            peer_source_offer_fence: 0,
        }
    }

    pub open spec fn is_fresh(self, config: VsetConfig, incarnation: u64) -> bool {
        &&& self.config == config
        &&& self.incarnation == incarnation
        &&& !self.ready
        &&& self.fence == 0
        &&& self.mutation_seq == 0
        &&& self.next_seq == 0
        &&& self.next_seg == 0
        &&& self.next_gen == 0
        &&& self.next_leaf == 0
        &&& self.page_locs@ == Map::<u64, PageLoc>::empty()
        &&& self.overlay@ == Map::<u64, PageLoc>::empty()
        &&& self.leaf_table@ == Map::<u64, LeafPointer>::empty()
        &&& self.hydrated_spans@ == Set::<u64>::empty()
        &&& self.failed_spans@ == Set::<u64>::empty()
        &&& self.leaf_waiters@ == Map::<u64, Vec<u64>>::empty()
        &&& self.backed_segments@ == Seq::<(u64, u64)>::empty()
        &&& self.backed_leaves@ == Seq::<(u64, u64)>::empty()
        &&& self.hydrations == 0
        &&& self.database == DatabaseMeta::absent()
        &&& self.database_runtime.phase == AttachmentPhase::Detached
        &&& self.database_runtime.handles@ == Map::<u64, DatabaseFile>::empty()
        &&& self.database_runtime.active is None
        &&& self.database_runtime.drain_barrier == 0
        &&& self.sync_ack_through == 0
        &&& self.local_covered_through == 0
        &&& self.best_record is None
        &&& self.record_writes@ == Map::<u64, (u64, u64)>::empty()
        &&& self.segment_blobs@ == Seq::<SegmentBlob>::empty()
        &&& self.leaf_blobs@ == Seq::<LeafBlob>::empty()
        &&& self.mutation_waiters@ == Seq::<u64>::empty()
        &&& self.operations == (Operations { mutation: None, migration: false })
        &&& !self.outbound
        &&& self.peer_source is None
        &&& self.peer_source_offer_fence == 0
    }
}

/// Room on the local device.
#[derive(Clone, Copy, PartialEq, Eq, Debug, Structural)]
pub struct BlobLedger {
    pub capacity: Option<u64>,
    pub headroom: u64,
    pub used: u64,
    pub reserved: u64,
}

impl BlobLedger {
    /// Whether `bytes` more fit under the capacity, keeping the headroom.
    pub open spec fn fits(self, bytes: int) -> bool {
        self.capacity matches Some(capacity) ==> self.used + self.reserved + bytes
            + self.headroom <= capacity
    }

    /// Sets `bytes` aside for blobs about to be written, if they fit.
    pub fn try_reserve(&mut self, bytes: u64) -> (reserved: bool)
        ensures
            reserved == (old(self).fits(bytes as int) && old(self).reserved + bytes <= u64::MAX),
            *final(self) == (if reserved {
                BlobLedger { reserved: (old(self).reserved + bytes) as u64, ..*old(self) }
            } else {
                *old(self)
            }),
    {
        if let Some(capacity) = self.capacity {
            let need: u128 = self.used as u128 + self.reserved as u128 + bytes as u128
                + self.headroom as u128;
            if need > capacity as u128 {
                return false;
            }
        }
        if self.reserved > u64::MAX - bytes {
            return false;
        }
        self.reserved = self.reserved + bytes;
        true
    }

    /// Turns a reservation into a written blob.
    pub fn record(&mut self, bytes: u64)
        requires
            old(self).used + bytes <= u64::MAX,
        ensures
            *final(self) == (BlobLedger {
                used: (old(self).used + bytes) as u64,
                reserved: (if old(self).reserved >= bytes {
                    old(self).reserved - bytes
                } else {
                    0
                }) as u64,
                ..*old(self)
            }),
    {
        self.used = self.used + bytes;
        self.reserved = self.reserved.saturating_sub(bytes);
    }
}

/// What a host has done, for its operators.
#[derive(Clone, Copy, PartialEq, Eq, Debug, Structural)]
pub struct Counters {
    pub pages_flushed: u64,
    pub records_written: u64,
    pub leaf_rolls: u64,
    pub guest_rejected: u64,
    pub guest_pages_dirtied: u64,
    pub wp_faults: u64,
    pub cow_captures: u64,
    pub pressure_waits: u64,
    pub zero_fills: u64,
    pub shared_fills: u64,
    pub fills: u64,
    pub faults_unservable: u64,
    pub syncs_acked: u64,
    pub checkpoints_done: u64,
    pub files_compacted: u64,
    pub pages_compacted: u64,
    pub manifests_published: u64,
    pub assignment_claims: u64,
    pub assignment_claim_conflicts: u64,
    pub store_retries: u64,
    pub fenced: u64,
}

impl Counters {
    /// Every counter can still take `n` more.
    pub open spec fn room(self, n: int) -> bool {
        &&& self.pages_flushed + n <= u64::MAX
        &&& self.records_written + n <= u64::MAX
        &&& self.leaf_rolls + n <= u64::MAX
        &&& self.guest_rejected + n <= u64::MAX
        &&& self.guest_pages_dirtied + n <= u64::MAX
        &&& self.wp_faults + n <= u64::MAX
        &&& self.cow_captures + n <= u64::MAX
        &&& self.pressure_waits + n <= u64::MAX
        &&& self.zero_fills + n <= u64::MAX
        &&& self.shared_fills + n <= u64::MAX
        &&& self.fills + n <= u64::MAX
        &&& self.faults_unservable + n <= u64::MAX
        &&& self.syncs_acked + n <= u64::MAX
        &&& self.checkpoints_done + n <= u64::MAX
        &&& self.files_compacted + n <= u64::MAX
        &&& self.pages_compacted + n <= u64::MAX
        &&& self.manifests_published + n <= u64::MAX
        &&& self.assignment_claims + n <= u64::MAX
        &&& self.assignment_claim_conflicts + n <= u64::MAX
        &&& self.store_retries + n <= u64::MAX
        &&& self.fenced + n <= u64::MAX
    }

    pub open spec fn zero() -> Counters {
        Counters {
            pages_flushed: 0,
            records_written: 0,
            leaf_rolls: 0,
            guest_rejected: 0,
            guest_pages_dirtied: 0,
            wp_faults: 0,
            cow_captures: 0,
            pressure_waits: 0,
            zero_fills: 0,
            shared_fills: 0,
            fills: 0,
            faults_unservable: 0,
            syncs_acked: 0,
            checkpoints_done: 0,
            files_compacted: 0,
            pages_compacted: 0,
            manifests_published: 0,
            assignment_claims: 0,
            assignment_claim_conflicts: 0,
            store_retries: 0,
            fenced: 0,
        }
    }

    pub fn new() -> (counters: Counters)
        ensures
            counters == Counters::zero(),
    {
        Counters {
            pages_flushed: 0,
            records_written: 0,
            leaf_rolls: 0,
            guest_rejected: 0,
            guest_pages_dirtied: 0,
            wp_faults: 0,
            cow_captures: 0,
            pressure_waits: 0,
            zero_fills: 0,
            shared_fills: 0,
            fills: 0,
            faults_unservable: 0,
            syncs_acked: 0,
            checkpoints_done: 0,
            files_compacted: 0,
            pages_compacted: 0,
            manifests_published: 0,
            assignment_claims: 0,
            assignment_claim_conflicts: 0,
            store_retries: 0,
            fenced: 0,
        }
    }
}

/// A blob of a volume on the local device.
#[derive(Clone, Copy, PartialEq, Eq, Debug, Structural)]
pub struct VolumeBlob {
    pub volume: u64,
    pub fence: u64,
    pub kind: VolumeBlobKind,
    pub number: u64,
}

/// A blob on the local device, with its length.
#[derive(Clone, Copy, PartialEq, Eq, Debug, Structural)]
pub struct StoredBlob {
    pub name: VolumeBlob,
    pub bytes: u64,
}

#[derive(Clone, Copy, PartialEq, Eq, Debug, Structural)]
pub enum VolumeBlobKind {
    File,
    Record,
    RecordMirror,
}

/// A copy on another host that is to be given up.
#[derive(Clone, Copy, PartialEq, Eq, Debug, Structural)]
pub struct ReplicaRelease {
    pub peer: HostId,
    pub volume: u64,
    pub assignment_epoch: u64,
    /// Commits up to here are archived.
    pub through: ReplicaCommitInfo,
}

pub struct HostState {
    pub host: HostId,
    pub vsets: BTreeMap<u64, VsetState>,
    pub volumes: BTreeMap<u64, VolumeState>,
    pub ledger: BlobLedger,
    pub counters: Counters,
    /// Generation of the next attachment.
    pub next_attachment: u64,
    /// Incarnation of the next vset or volume.
    pub next_incarnation: u64,
    /// Volumes to be looked at for work, each once, oldest first.
    pub scheduled: Vec<u64>,
    pub releases: Vec<ReplicaRelease>,
    /// Blobs of volumes on the local device.
    pub blobs: Vec<StoredBlob>,
    /// Pages of bases that are resident and shared.
    pub bases: Vec<BaseKey>,
}

/// A page of a base, by where it lies.
#[derive(Clone, Copy, PartialEq, Eq, Debug, Structural)]
pub struct BaseKey {
    pub base: u64,
    pub fence: u64,
    pub object: u64,
    pub offset: u32,
}

impl HostState {
    pub fn new(host: HostId, capacity: Option<u64>, headroom: u64) -> (state: HostState)
        ensures
            state.host == host,
            state.vsets@ == Map::<u64, VsetState>::empty(),
            state.volumes@ == Map::<u64, VolumeState>::empty(),
            state.ledger == (BlobLedger { capacity, headroom, used: 0, reserved: 0 }),
            state.counters == Counters::zero(),
            state.next_attachment == 1,
            state.next_incarnation == 1,
            state.scheduled@ == Seq::<u64>::empty(),
            state.releases@ == Seq::<ReplicaRelease>::empty(),
            state.blobs@ == Seq::<StoredBlob>::empty(),
            state.bases@ == Seq::<BaseKey>::empty(),
            state.wf(),
    {
        HostState {
            host,
            vsets: BTreeMap::new(),
            volumes: BTreeMap::new(),
            ledger: BlobLedger { capacity, headroom, used: 0, reserved: 0 },
            counters: Counters::new(),
            next_attachment: 1,
            next_incarnation: 1,
            scheduled: Vec::new(),
            releases: Vec::new(),
            blobs: Vec::new(),
            bases: Vec::new(),
        }
    }

    /// Starts serving a volume under a new incarnation.
    pub fn insert_fresh_volume(&mut self, volume: u64, config: VolumeConfig) -> (incarnation: u64)
        requires
            old(self).next_incarnation < u64::MAX,
        ensures
            incarnation == old(self).next_incarnation,
            *final(self) == (HostState {
                volumes: final(self).volumes,
                next_incarnation: (old(self).next_incarnation + 1) as u64,
                ..*old(self)
            }),
            final(self).volumes@ == old(self).volumes@.insert(
                volume,
                final(self).volumes@[volume],
            ),
            final(self).volumes@[volume].is_fresh(config, incarnation),
            follows(*old(self), *final(self)),
    {
        let incarnation: u64 = self.next_incarnation;
        self.next_incarnation = incarnation + 1;
        let state = VolumeState::fresh(config, incarnation);
        self.volumes.insert(volume, state);
        incarnation
    }

    pub open spec fn volume_at_spec(&self, volume: u64, incarnation: u64) -> Option<VolumeState> {
        if self.volumes@.contains_key(volume) && self.volumes@[volume].incarnation
            == incarnation {
            Some(self.volumes@[volume])
        } else {
            None
        }
    }

    /// The volume, if it is still the same incarnation.
    pub fn volume_at(&self, volume: u64, incarnation: u64) -> (found: Option<&VolumeState>)
        ensures
            found == (match self.volume_at_spec(volume, incarnation) {
                Some(state) => Some(&state),
                None => None,
            }),
    {
        match self.volumes.get(&volume) {
            Some(state) => if state.incarnation == incarnation {
                Some(state)
            } else {
                None
            },
            None => None,
        }
    }

    /// Has a volume looked at for work, unless it is due already.
    pub fn schedule_volume(&mut self, volume: u64)
        ensures
            *final(self) == (HostState { scheduled: final(self).scheduled, ..*old(self) }),
            final(self).scheduled@ == with_scheduled(old(self).scheduled@, volume),
            follows(*old(self), *final(self)),
    {
        let mut i: usize = 0;
        while i < self.scheduled.len()
            invariant
                i <= self.scheduled@.len(),
                *self == *old(self),
                forall|a: int| 0 <= a < i ==> self.scheduled@[a] != volume,
            decreases self.scheduled@.len() - i,
        {
            if self.scheduled[i] == volume {
                return ;
            }
            i = i + 1;
        }
        self.scheduled.push(volume);
    }

    /// Takes up to `count` due volumes, the longest waiting first.
    pub fn take_scheduled_volumes(&mut self, count: usize) -> (taken: Vec<u64>)
        ensures
            *final(self) == (HostState { scheduled: final(self).scheduled, ..*old(self) }),
            taken@.len() == (if count <= old(self).scheduled@.len() {
                count as nat
            } else {
                old(self).scheduled@.len()
            }),
            old(self).scheduled@ == taken@ + final(self).scheduled@,
            follows(*old(self), *final(self)),
    {
        let due: usize = self.scheduled.len();
        let n: usize = if count <= due {
            count
        } else {
            due
        };
        let rest: Vec<u64> = self.scheduled.split_off(n);
        let mut taken: Vec<u64> = Vec::new();
        taken.append(&mut self.scheduled);
        self.scheduled = rest;
        taken
    }

    pub fn scheduled_volume_count(&self) -> (count: usize)
        ensures
            count == self.scheduled@.len(),
    {
        self.scheduled.len()
    }
}

impl HostState {
    /// Every attachment in use is older than the next one, and so is every volume;
    /// and every volume is sound.
    pub open spec fn wf(self) -> bool {
        &&& forall|vset: u64| #[trigger]
            self.vsets@.contains_key(vset) ==> (self.vsets@[vset].database_runtime.phase.holder()
                matches Some(id) ==> id.generation < self.next_attachment)
        &&& forall|volume: u64| #[trigger]
            self.volumes@.contains_key(volume) ==> {
                &&& self.volumes@[volume].wf()
                &&& self.volumes@[volume].incarnation < self.next_incarnation
            }
    }
}

/// Every answer to a request for a checkpoint is kept, but for that to `recorded`.
pub open spec fn answers_kept(before: VolumeState, after: VolumeState, recorded: Option<u64>) -> bool {
    forall|req: u64| #[trigger]
        before.checkpoint_results@.contains_key(req) && recorded != Some(req) ==> {
            &&& after.checkpoint_results@.contains_key(req)
            &&& after.checkpoint_results@[req] == before.checkpoint_results@[req]
        }
}

/// What every operation keeps: a sound host stays sound, no generation of
/// attachments and no incarnation comes back, and a volume that is still the same
/// keeps its answers to requests for checkpoints.
pub open spec fn follows(before: HostState, after: HostState) -> bool {
    follows_recording(before, after, None)
}

/// The same of an operation that records the answer to a request of a volume.
pub open spec fn follows_recording(
    before: HostState,
    after: HostState,
    recorded: Option<(u64, u64)>,
) -> bool {
    &&& before.next_attachment <= after.next_attachment
    &&& before.next_incarnation <= after.next_incarnation
    &&& before.wf() ==> after.wf()
    &&& forall|volume: u64| #[trigger]
        after.volumes@.contains_key(volume) && after.volumes@[volume].incarnation
            < before.next_incarnation ==> {
            &&& before.volumes@.contains_key(volume)
            &&& before.volumes@[volume].incarnation == after.volumes@[volume].incarnation
            &&& answers_kept(
                before.volumes@[volume],
                after.volumes@[volume],
                match recorded {
                    Some((v, req)) if v == volume => Some(req),
                    _ => None,
                },
            )
        }
}

/// The volume has given no other answer to the request than this epoch.
pub open spec fn answer_stands(host: HostState, volume: u64, req: u64, epoch: u64) -> bool {
    host.volumes@.contains_key(volume) && host.volumes@[volume].checkpoint_results@.contains_key(
        req,
    ) ==> host.volumes@[volume].checkpoint_results@[req] == epoch
}

/// The due volumes after `volume` was asked for.
pub open spec fn with_scheduled(scheduled: Seq<u64>, volume: u64) -> Seq<u64> {
    if scheduled.contains(volume) {
        scheduled
    } else {
        scheduled.push(volume)
    }
}

impl HostState {
    /// Starts serving a vset under a new incarnation.
    pub fn insert_fresh(&mut self, vset: VsetId, config: VsetConfig) -> (incarnation: u64)
        requires
            old(self).next_incarnation < u64::MAX,
        ensures
            incarnation == old(self).next_incarnation,
            *final(self) == (HostState {
                vsets: final(self).vsets,
                next_incarnation: (old(self).next_incarnation + 1) as u64,
                ..*old(self)
            }),
            final(self).vsets@.dom() == old(self).vsets@.dom().insert(vset.0),
            final(self).vsets@[vset.0].is_fresh(config, incarnation),
            forall|other: u64|
                other != vset.0 && old(self).vsets@.contains_key(other)
                    ==> #[trigger] final(self).vsets@[other] == old(self).vsets@[other],
            follows(*old(self), *final(self)),
    {
        let incarnation: u64 = self.next_incarnation;
        self.next_incarnation = incarnation + 1;
        let state = VsetState::fresh(config, incarnation);
        self.vsets.insert(vset.0, state);
        incarnation
    }

    /// A new attachment for `vm`; its generation is above every earlier one.
    pub fn allocate_attachment(&mut self, vm: VmId) -> (attachment: AttachmentId)
        requires
            old(self).next_attachment < u64::MAX,
        ensures
            attachment == (AttachmentId { vm, generation: old(self).next_attachment }),
            *final(self) == (HostState {
                next_attachment: (old(self).next_attachment + 1) as u64,
                ..*old(self)
            }),
            follows(*old(self), *final(self)),
    {
        let generation: u64 = self.next_attachment;
        self.next_attachment = generation + 1;
        AttachmentId { vm, generation }
    }
}

} // verus!
