//! A volume as this host serves it.

use super::maps::{lists_keys, sorted_keys};
use crate::head::{ManifestPtr, ReplicaCommitInfo, RetiredStash, StashAssignment};
use crate::journal::MigrationSource;
use crate::objects::{sorted, BlockKey, BlockSpace, BlxFooter, ObjectIdentity, ObjectRef};
use crate::types::HostId;
use std::collections::{BTreeMap, BTreeSet};
use vstd::prelude::*;

verus! {

broadcast use vstd::std_specs::btree::group_btree_axioms;

#[derive(Clone, Copy, PartialEq, Eq, Hash, Debug, Structural)]
pub enum VolumeKind {
    Data,
    /// Guest memory. The guest is paused while it is captured.
    Memory,
}

#[derive(Clone, Copy, PartialEq, Eq, Hash, Debug, Structural)]
pub struct VolumeConfig {
    pub kind: VolumeKind,
    pub pages: u32,
}

impl VolumeConfig {
    pub fn data(pages: u32) -> (config: VolumeConfig)
        ensures
            config == (VolumeConfig { kind: VolumeKind::Data, pages }),
    {
        VolumeConfig { kind: VolumeKind::Data, pages }
    }

    pub fn memory(pages: u32) -> (config: VolumeConfig)
        ensures
            config == (VolumeConfig { kind: VolumeKind::Memory, pages }),
    {
        VolumeConfig { kind: VolumeKind::Memory, pages }
    }

    pub open spec fn is_memory_spec(self) -> bool {
        self.kind == VolumeKind::Memory
    }

    #[verifier::when_used_as_spec(is_memory_spec)]
    pub fn is_memory(self) -> (memory: bool)
        ensures
            memory == self.is_memory_spec(),
    {
        match self.kind {
            VolumeKind::Memory => true,
            VolumeKind::Data => false,
        }
    }

    pub open spec fn key_spec(self, page: u32) -> BlockKey {
        BlockKey {
            space: match self.kind {
                VolumeKind::Data => BlockSpace::Data,
                VolumeKind::Memory => BlockSpace::Memory,
            },
            block: page,
        }
    }

    /// The archive key of a page.
    #[verifier::when_used_as_spec(key_spec)]
    pub fn key(self, page: u32) -> (key: BlockKey)
        ensures
            key == self.key_spec(page),
    {
        BlockKey {
            space: match self.kind {
                VolumeKind::Data => BlockSpace::Data,
                VolumeKind::Memory => BlockSpace::Memory,
            },
            block: page,
        }
    }
}

/// Where the newest durable copy of a page lies. Base zero is the volume
/// itself.
#[derive(Clone, Copy, PartialEq, Eq, Hash, Debug, Structural)]
pub struct PageFileLoc {
    pub base: u64,
    pub fence: u64,
    pub object: u64,
    pub offset: u32,
    pub len: u32,
}

#[derive(Clone, Copy, PartialEq, Eq, Hash, Debug, Structural)]
pub struct PageEntry {
    pub generation: u64,
    pub loc: PageFileLoc,
}

/// A page in guest memory or in the host's cache.
#[derive(Clone, Copy, PartialEq, Eq, Hash, Debug, Structural)]
pub struct PageState {
    /// Changed since it was last captured.
    pub dirty: bool,
    /// Captured, but not yet in a file.
    pub flushing: bool,
}

/// Generation of a block's newest value, and what it adds to the checksum of the
/// whole state.
#[derive(Clone, Copy, PartialEq, Eq, Hash, Debug, Structural)]
pub struct BlockSum {
    pub generation: u64,
    pub contribution: u64,
}

#[derive(Clone, Copy, PartialEq, Eq, Hash, Debug, Structural)]
pub enum VolumeRecordKind {
    Commit,
    /// A state a virtual machine can be started from.
    Checkpoint { epoch: u64, vmstate: u64, vmstate_length: u64 },
}

/// One committed state of a volume.
pub struct VolumeRecord {
    pub config: VolumeConfig,
    pub seq: u64,
    pub fence: u64,
    pub kind: VolumeRecordKind,
    pub capture_seq: u64,
    pub sync_covered_through: u64,
    pub post_state_checksum: u64,
    /// The files the state is in.
    pub files: Vec<ObjectRef>,
    /// Page locations, for a volume that still depends on another host.
    pub page_index: BTreeMap<u64, PageEntry>,
    pub migrated_from: Option<MigrationSource>,
}

impl VolumeRecord {
    pub open spec fn same(self, other: VolumeRecord) -> bool {
        &&& self.config == other.config
        &&& self.seq == other.seq
        &&& self.fence == other.fence
        &&& self.kind == other.kind
        &&& self.capture_seq == other.capture_seq
        &&& self.sync_covered_through == other.sync_covered_through
        &&& self.post_state_checksum == other.post_state_checksum
        &&& self.files@ == other.files@
        &&& self.page_index@ == other.page_index@
        &&& self.migrated_from == other.migrated_from
    }

    pub fn duplicate(&self) -> (copy: VolumeRecord)
        ensures
            copy.same(*self),
    {
        VolumeRecord {
            config: self.config,
            seq: self.seq,
            fence: self.fence,
            kind: self.kind,
            capture_seq: self.capture_seq,
            sync_covered_through: self.sync_covered_through,
            post_state_checksum: self.post_state_checksum,
            files: copy_refs(&self.files),
            page_index: self.page_index.clone(),
            migrated_from: self.migrated_from,
        }
    }

    pub open spec fn commit_info_spec(&self) -> ReplicaCommitInfo {
        ReplicaCommitInfo {
            writer_fence: self.fence,
            seq: self.seq,
            sync_covered_through: self.sync_covered_through,
        }
    }

    #[verifier::when_used_as_spec(commit_info_spec)]
    pub fn commit_info(&self) -> (info: ReplicaCommitInfo)
        ensures
            info == self.commit_info_spec(),
    {
        ReplicaCommitInfo {
            writer_fence: self.fence,
            seq: self.seq,
            sync_covered_through: self.sync_covered_through,
        }
    }
}

pub fn copy_refs(refs: &Vec<ObjectRef>) -> (copy: Vec<ObjectRef>)
    ensures
        copy@ == refs@,
{
    let mut copy: Vec<ObjectRef> = Vec::new();
    let mut i: usize = 0;
    while i < refs.len()
        invariant
            i <= refs@.len(),
            copy@ == refs@.take(i as int),
        decreases refs@.len() - i,
    {
        copy.push(refs[i]);
        i = i + 1;
    }
    copy
}

/// A guest's request to have its writes so far made durable.
#[derive(Clone, Copy, PartialEq, Eq, Hash, Debug, Structural)]
pub struct PendingSync {
    pub id: u64,
    pub barrier: u64,
}

#[derive(Clone, Copy, PartialEq, Eq, Hash, Debug, Structural)]
pub enum CaptureKind {
    Writeback,
    Checkpoint,
    Migration,
}

/// How a recovered volume may be started.
#[derive(Clone, Copy, PartialEq, Eq, Hash, Debug, Structural)]
pub enum Verdict {
    ColdBoot,
    Whole,
}

/// A page taken over from a file that is being given up.
pub struct Rescue {
    pub page: u64,
    pub generation: u64,
    pub bytes: Vec<u8>,
}

/// A page's content, saved before a guest write could change it.
pub struct SavedPage {
    pub generation: u64,
    pub bytes: Vec<u8>,
}

/// Pages of a capture that have not been read yet.
pub struct Drain {
    pub unread: BTreeMap<u64, u64>,
    /// Pages a guest wrote to before they were read.
    pub copied: BTreeMap<u64, SavedPage>,
    /// Pages that may still be write-protected.
    pub armed: Vec<u64>,
    pub rescues: Vec<Rescue>,
}

/// Which exclusive operations a volume is in.
pub struct VolumeOperations {
    pub mutation: Option<CaptureKind>,
    pub migration: bool,
    pub replication: bool,
    pub publication: bool,
    /// Recovered locally, but not yet compared with the store.
    pub recovery: Option<Verdict>,
    /// A paused guest waits to be resumed.
    pub guest_resume: bool,
    pub drain: Option<Drain>,
}

impl VolumeOperations {
    pub open spec fn mutation_blocked_spec(&self) -> bool {
        self.mutation is Some || self.guest_resume
    }

    #[verifier::when_used_as_spec(mutation_blocked_spec)]
    pub fn mutation_blocked(&self) -> (blocked: bool)
        ensures
            blocked == self.mutation_blocked_spec(),
    {
        self.mutation.is_some() || self.guest_resume
    }
}

#[derive(Clone, Copy, PartialEq, Eq, Hash, Debug, Structural)]
pub struct BaseRef {
    pub base_id: u64,
    pub manifest_id: u64,
    pub manifest_checksum: u64,
    pub post_state_checksum: u64,
}

/// A file of the volume on the local device.
#[derive(Clone, Copy, PartialEq, Eq, Hash, Debug, Structural)]
pub struct LocalFile {
    pub identity: ObjectIdentity,
    pub bytes: u64,
}

/// The loaded index of an archive object.
pub struct LoadedFooter {
    pub identity: ObjectIdentity,
    pub footer: BlxFooter,
}

pub struct VolumeState {
    pub config: VolumeConfig,
    pub incarnation: u64,
    pub ready: bool,
    pub fence: u64,
    pub mutation_seq: u64,
    pub pages_dirtied: u64,
    pub next_seq: u64,
    pub next_object_id: u64,
    pub next_gen: u64,
    pub epoch: u64,
    /// Durable locations of pages.
    pub page_locs: BTreeMap<u64, PageEntry>,
    /// Pages that are resident.
    pub pages: BTreeMap<u64, PageState>,
    /// Pages being brought in.
    pub filling: BTreeSet<u64>,
    /// Checksums of the newest values, by key code.
    pub blocks: BTreeMap<u64, BlockSum>,
    pub state_checksum: u64,
    pub archive_base: Option<BaseRef>,
    pub archive_objects: Vec<ObjectRef>,
    pub archive_footers: Vec<LoadedFooter>,
    /// Pages whose archived location is known.
    pub archive_resolved: BTreeSet<u64>,
    pub archived_memory_usable: bool,
    pub archived_non_data_reset: bool,
    pub files: Vec<LocalFile>,
    /// Files by name, in order.
    pub file_refs: Vec<ObjectRef>,
    pub tombstone_files: Vec<ObjectIdentity>,
    pub vmm_files: Vec<ObjectIdentity>,
    pub record_files: BTreeMap<u64, Vec<ObjectIdentity>>,
    /// Blocks to be marked as gone, by key code.
    pub pending_tombstones: BTreeSet<u64>,
    pub pending_syncs: Vec<PendingSync>,
    pub sync_ack_through: u64,
    pub local_covered_through: u64,
    pub best_record: Option<VolumeRecord>,
    pub pinned: Option<VolumeRecord>,
    pub record_writes: BTreeMap<u64, (u64, u64)>,
    pub checkpoint_results: BTreeMap<u64, u64>,
    pub head_version: Option<u64>,
    pub backed: Option<ManifestPtr>,
    pub backed_files: Vec<ObjectIdentity>,
    pub publishing_files: Vec<ObjectIdentity>,
    pub store_manifests: Vec<(u64, u64)>,
    pub stash_assignment: Option<StashAssignment>,
    pub retired_stashes: Vec<RetiredStash>,
    pub peer_published: Option<ReplicaCommitInfo>,
    pub peer_committed: Option<ReplicaCommitInfo>,
    pub peer_committed_record: Option<VolumeRecord>,
    pub operations: VolumeOperations,
    pub outbound: bool,
    pub peer_source: Option<HostId>,
    pub peer_source_offer_fence: u64,
    pub mutation_waiters: Vec<u64>,
    pub publication_waiters: Vec<u64>,
    pub fills: u64,
}

impl VolumeState {
    /// A volume that nothing was written to yet.
    pub fn fresh(config: VolumeConfig, incarnation: u64) -> (state: VolumeState)
        ensures
            state.is_fresh(config, incarnation),
            state.wf(),
    {
        VolumeState {
            config,
            incarnation,
            ready: false,
            fence: 0,
            mutation_seq: 0,
            pages_dirtied: 0,
            next_seq: 0,
            next_object_id: 0,
            next_gen: 0,
            epoch: 0,
            page_locs: BTreeMap::new(),
            pages: BTreeMap::new(),
            filling: BTreeSet::new(),
            blocks: BTreeMap::new(),
            state_checksum: 0,
            archive_base: None,
            archive_objects: Vec::new(),
            archive_footers: Vec::new(),
            archive_resolved: BTreeSet::new(),
            archived_memory_usable: true,
            archived_non_data_reset: true,
            files: Vec::new(),
            file_refs: Vec::new(),
            tombstone_files: Vec::new(),
            vmm_files: Vec::new(),
            record_files: BTreeMap::new(),
            pending_tombstones: BTreeSet::new(),
            pending_syncs: Vec::new(),
            sync_ack_through: 0,
            local_covered_through: 0,
            best_record: None,
            pinned: None,
            record_writes: BTreeMap::new(),
            checkpoint_results: BTreeMap::new(),
            head_version: None,
            backed: None,
            backed_files: Vec::new(),
            publishing_files: Vec::new(),
            store_manifests: Vec::new(),
            stash_assignment: None,
            retired_stashes: Vec::new(),
            peer_published: None,
            peer_committed: None,
            peer_committed_record: None,
            operations: VolumeOperations {
                mutation: None,
                migration: false,
                replication: false,
                publication: false,
                recovery: None,
                guest_resume: false,
                drain: None,
            },
            outbound: false,
            peer_source: None,
            peer_source_offer_fence: 0,
            mutation_waiters: Vec::new(),
            publication_waiters: Vec::new(),
            fills: 0,
        }
    }

    /// The files are listed in the order of their names, each once.
    pub open spec fn wf(self) -> bool {
        sorted(self.file_refs@)
    }

    /// Nothing was written, read or promised yet.
    pub open spec fn is_fresh(self, config: VolumeConfig, incarnation: u64) -> bool {
        &&& self.config == config
        &&& self.incarnation == incarnation
        &&& !self.ready
        &&& self.fence == 0
        &&& self.mutation_seq == 0
        &&& self.pages_dirtied == 0
        &&& self.next_seq == 0
        &&& self.next_object_id == 0
        &&& self.next_gen == 0
        &&& self.epoch == 0
        &&& self.page_locs@ == Map::<u64, PageEntry>::empty()
        &&& self.pages@ == Map::<u64, PageState>::empty()
        &&& self.filling@ == Set::<u64>::empty()
        &&& self.blocks@ == Map::<u64, BlockSum>::empty()
        &&& self.state_checksum == 0
        &&& self.archive_base is None
        &&& self.archive_objects@ == Seq::<ObjectRef>::empty()
        &&& self.archive_footers@ == Seq::<LoadedFooter>::empty()
        &&& self.archive_resolved@ == Set::<u64>::empty()
        &&& self.archived_memory_usable
        &&& self.archived_non_data_reset
        &&& self.files@ == Seq::<LocalFile>::empty()
        &&& self.file_refs@ == Seq::<ObjectRef>::empty()
        &&& self.tombstone_files@ == Seq::<ObjectIdentity>::empty()
        &&& self.vmm_files@ == Seq::<ObjectIdentity>::empty()
        &&& self.record_files@ == Map::<u64, Vec<ObjectIdentity>>::empty()
        &&& self.pending_tombstones@ == Set::<u64>::empty()
        &&& self.pending_syncs@ == Seq::<PendingSync>::empty()
        &&& self.sync_ack_through == 0
        &&& self.local_covered_through == 0
        &&& self.best_record is None
        &&& self.pinned is None
        &&& self.record_writes@ == Map::<u64, (u64, u64)>::empty()
        &&& self.checkpoint_results@ == Map::<u64, u64>::empty()
        &&& self.head_version is None
        &&& self.backed is None
        &&& self.backed_files@ == Seq::<ObjectIdentity>::empty()
        &&& self.publishing_files@ == Seq::<ObjectIdentity>::empty()
        &&& self.store_manifests@ == Seq::<(u64, u64)>::empty()
        &&& self.stash_assignment is None
        &&& self.retired_stashes@ == Seq::<RetiredStash>::empty()
        &&& self.peer_published is None
        &&& self.peer_committed is None
        &&& self.peer_committed_record is None
        &&& self.operations == (VolumeOperations {
            mutation: None,
            migration: false,
            replication: false,
            publication: false,
            recovery: None,
            guest_resume: false,
            drain: None,
        })
        &&& !self.outbound
        &&& self.peer_source is None
        &&& self.peer_source_offer_fence == 0
        &&& self.mutation_waiters@ == Seq::<u64>::empty()
        &&& self.publication_waiters@ == Seq::<u64>::empty()
        &&& self.fills == 0
    }

    /// Any resident page has changed since its last capture.
    pub open spec fn has_dirty_spec(&self) -> bool {
        exists|page: u64| #[trigger] self.pages@.contains_key(page) && self.pages@[page].dirty
    }

    #[verifier::when_used_as_spec(has_dirty_spec)]
    pub fn has_dirty(&self) -> (dirty: bool)
        ensures
            dirty == self.has_dirty_spec(),
    {
        let keys: Vec<u64> = sorted_keys(&self.pages);
        let mut i: usize = 0;
        while i < keys.len()
            invariant
                i <= keys@.len(),
                lists_keys(keys@, self.pages@),
                forall|a: int| 0 <= a < i ==> !self.pages@[#[trigger] keys@[a]].dirty,
            decreases keys@.len() - i,
        {
            proof {
                assert(keys@.contains(keys@[i as int]));
            }
            if let Some(state) = self.pages.get(&keys[i]) {
                if state.dirty {
                    return true;
                }
            }
            i = i + 1;
        }
        proof {
            assert forall|page: u64| #[trigger] self.pages@.contains_key(page) implies
                !self.pages@[page].dirty by {
                assert(keys@.contains(page));
                let a = choose|a: int| 0 <= a < keys@.len() && keys@[a] == page;
            }
        }
        false
    }

    /// Some guest waits for a synchronisation that no local record holds.
    pub open spec fn uncovered_sync_spec(&self) -> bool {
        exists|i: int|
            0 <= i < self.pending_syncs@.len() && (#[trigger] self.pending_syncs@[i]).barrier
                > self.local_covered_through
    }

    #[verifier::when_used_as_spec(uncovered_sync_spec)]
    pub fn uncovered_sync(&self) -> (waiting: bool)
        ensures
            waiting == self.uncovered_sync_spec(),
    {
        let mut i: usize = 0;
        while i < self.pending_syncs.len()
            invariant
                i <= self.pending_syncs@.len(),
                forall|a: int|
                    0 <= a < i ==> (#[trigger] self.pending_syncs@[a]).barrier
                        <= self.local_covered_through,
            decreases self.pending_syncs@.len() - i,
        {
            if self.pending_syncs[i].barrier > self.local_covered_through {
                return true;
            }
            i = i + 1;
        }
        false
    }
}

} // verus!
