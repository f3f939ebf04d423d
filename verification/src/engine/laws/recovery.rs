//! What recovery is for: a volume opens on the host that holds it, with everything
//! that was promised, and nowhere else.

use super::super::publish::{joined, own_files};
use super::super::recovery::{
    archives, create_step, first_headed, head_installed, is_behind, is_upgraded, may_open, opened,
    opening_verdict, recovered, ArchiveClosure, ManifestSummary, OpenStep,
};
use super::super::state::HostState;
use super::super::volume::{Verdict, VolumeRecord, VolumeState};
use super::seqs::lemma_filter_members;
use crate::head::{HeadRecord, ManifestPtr, ReplicaCommitInfo, StashAssignment};
use crate::objects::{NamespaceKind, ObjectIdentity, ObjectRef};
use crate::store::{StoreError, StoreFault};
use vstd::prelude::*;

verus! {

/// A holder that has every archived state, or newer ones, opens its volume: the
/// one that the head names opens it as long as the head was written under the
/// volume's fence or under none, and no archived state is newer than the newest
/// record here. A volume without a record has nothing. In every other case it does
/// not open.
pub proof fn a_holder_with_the_newest_state_opens(
    host: HostState,
    state: VolumeState,
    head: HeadRecord,
)
    ensures
        ({
            let (capture, seq) = match state.best_record {
                Some(record) => (record.capture_seq, record.seq),
                None => (0u64, 0u64),
            };
            let newest = match head.manifest {
                Some(archived) => archived.capture_seq < capture || (archived.capture_seq
                    == capture && archived.journal_seq <= seq),
                None => true,
            };
            may_open(host, state, head) <==> head.holder == host.host && (head.fence == 0
                || head.fence == state.fence) && newest
        }),
{
}

/// A holder whose own record was archived, or who wrote on since, is not behind:
/// what it publishes itself never locks it out.
pub proof fn publishing_locks_nobody_out(
    host: HostState,
    state: VolumeState,
    head: HeadRecord,
    later: VolumeState,
)
    requires
        may_open(host, state, head),
        later.fence == state.fence,
        state.best_record is Some,
        later.best_record is Some,
        later.best_record->0.capture_seq >= state.best_record->0.capture_seq,
        later.best_record->0.seq >= state.best_record->0.seq,
    ensures
        may_open(host, later, head),
        head.manifest is Some && head.manifest->0.capture_seq == later.best_record->0.capture_seq
            && head.manifest->0.journal_seq == later.best_record->0.seq ==> !is_behind(
            later,
            head.manifest,
        ),
{
}

/// A volume that opens is ready, and gives out its verdict once; one that was
/// handed over stays closed and keeps it. Nothing else changes.
pub proof fn opening_makes_ready(before: VolumeState, after: VolumeState)
    requires
        opened(before, after),
    ensures
        !before.outbound ==> {
            &&& after.ready
            &&& after.operations.recovery is None
            &&& opening_verdict(before) == before.operations.recovery
        },
        before.outbound ==> {
            &&& after.ready == before.ready
            &&& after.operations.recovery == before.operations.recovery
            &&& opening_verdict(before) is None
        },
        after.best_record == before.best_record,
        after.page_locs == before.page_locs,
        after.fence == before.fence,
        after.mutation_seq == before.mutation_seq,
        after.head_version == before.head_version,
        after.operations.mutation == before.operations.mutation,
{
}

/// A first head fences the volume by its version; nothing is archived yet.
pub proof fn a_first_head_fences_the_volume(
    before: VolumeState,
    after: VolumeState,
    version: u64,
    stash: StashAssignment,
)
    requires
        first_headed(before, after, version, stash),
    ensures
        after.fence == version,
        after.head_version == Some(version),
        after.backed is None,
        after.stash_assignment == Some(stash),
        after.retired_stashes@.len() == 0,
        after.best_record == before.best_record,
        after.page_locs == before.page_locs,
        after.ready == before.ready,
{
}

/// Which way a first write of the head sends the volume: it opens if the write
/// went through and the volume is still here; a conflict is looked at again, an
/// unreachable store is tried again.
pub proof fn a_first_head_opens_the_volume(
    present: bool,
    version: u64,
    fault: StoreFault,
    verdict: Option<Verdict>,
)
    ensures
        present ==> create_step(present, Ok(version), verdict) == OpenStep::Open(verdict),
        !present ==> create_step(present, Ok(version), verdict) is Gone,
        fault is CasConflict ==> create_step(present, Err(StoreError::Fault(fault)), verdict) is Again,
        fault is Unavailable ==> create_step(present, Err(StoreError::Fault(fault)), verdict) is Retry,
        create_step(present, Err(StoreError::TooLarge), verdict) is Fence,
{
}

/// A head that is brought up to date names the same holder and the same archived
/// state, under the volume's fence.
pub proof fn an_upgraded_head_keeps_holder_and_archive(
    upgraded: HeadRecord,
    head: HeadRecord,
    volume: u64,
    state: VolumeState,
    stash: StashAssignment,
)
    requires
        is_upgraded(upgraded, head, volume, state, stash),
    ensures
        upgraded.volume == volume,
        upgraded.holder == head.holder,
        upgraded.fence == state.fence,
        upgraded.manifest == head.manifest,
        upgraded.stash == Some(stash),
        upgraded.retired_stashes@ == head.retired_stashes@,
{
}

/// A manifest archives a record exactly if it is the one the head points at,
/// unchanged, and carries the record's numbers and checksum.
pub proof fn a_manifest_archives_the_record_it_was_made_from(
    manifest: ManifestSummary,
    pointer: ManifestPtr,
    bytes_checksum: u64,
    record: VolumeRecord,
    record_checksum: u64,
)
    ensures
        archives(manifest, pointer, bytes_checksum, record, record_checksum) <==> (bytes_checksum
            == pointer.checksum && manifest.writer_fence == pointer.fence && manifest.journal_seq
            == pointer.journal_seq && manifest.archive_seq == pointer.seq && manifest.journal_seq
            == record.seq && manifest.capture_seq == record.capture_seq
            && manifest.metadata_checksum == record_checksum),
{
}

/// Recovery opens the volume under the head that was read, knows what is archived
/// from then on, and keeps everything that was here.
pub proof fn recovery_knows_the_archive(
    before: VolumeState,
    after: VolumeState,
    version: u64,
    head: HeadRecord,
    closure: ArchiveClosure,
    volume: u64,
    published: Option<ReplicaCommitInfo>,
    object: ObjectRef,
    name: ObjectIdentity,
    pair: (u64, u64),
)
    requires
        recovered(before, after, version, head, closure, volume, published),
    ensures
        !before.outbound ==> after.ready && after.operations.recovery is None,
        after.head_version == Some(version),
        after.backed == head.manifest,
        after.stash_assignment == head.stash,
        after.retired_stashes@ == head.retired_stashes@,
        after.archive_objects@ == closure.objects@,
        after.archive_base == closure.base,
        after.peer_published == published,
        head.manifest matches Some(m) ==> after.store_manifests@.contains((m.fence, m.seq)),
        before.store_manifests@.contains(pair) ==> after.store_manifests@.contains(pair),
        closure.objects@.contains(object) && object.identity.namespace_kind
            == NamespaceKind::Volume && object.identity.namespace_id == volume
            ==> after.backed_files@.contains(object.identity),
        before.backed_files@.contains(name) ==> after.backed_files@.contains(name),
        after.best_record == before.best_record,
        after.page_locs == before.page_locs,
        after.pages == before.pages,
        after.fence == before.fence,
        after.mutation_seq == before.mutation_seq,
        after.next_seq == before.next_seq,
        after.pinned == before.pinned,
{
    let installed = choose|installed: VolumeState| #[trigger]
        head_installed(before, installed, version, head, closure, volume, published) && opened(
            installed,
            after,
        );
    let own = own_files(closure.objects@, volume);
    lemma_filter_members(closure.objects@, |o: ObjectRef| o.identity.of_volume(volume));
    joined_names_are_all_there(before.backed_files@, own, name);
    joined_names_are_all_there(before.backed_files@, own, object.identity);
    let was = before.store_manifests@;
    if let Some(m) = head.manifest {
        let new = (m.fence, m.seq);
        assert(was.push(new)[was.len() as int] == new);
        if was.contains(pair) {
            let i = choose|i: int| 0 <= i < was.len() && was[i] == pair;
            assert(was.push(new)[i] == pair);
        }
    }
    if own.contains(object) {
        let i = choose|i: int| 0 <= i < own.len() && own[i] == object;
        assert(own[i].identity == object.identity);
    }
}

/// Names that are joined are those of both sides.
pub proof fn joined_names_are_all_there(
    names: Seq<ObjectIdentity>,
    more: Seq<ObjectRef>,
    name: ObjectIdentity,
)
    ensures
        joined(names, more).contains(name) <==> names.contains(name) || exists|i: int|
            0 <= i < more.len() && (#[trigger] more[i]).identity == name,
    decreases more.len(),
{
    if more.len() > 0 {
        let front = more.drop_last();
        let end = more.len() - 1;
        joined_names_are_all_there(names, front, name);
        let rest = joined(names, front);
        let last = more.last().identity;
        assert(more[end].identity == last);
        let longer = rest.push(last);
        assert(longer.contains(name) <==> rest.contains(name) || name == last) by {
            assert(longer[rest.len() as int] == last);
            if rest.contains(name) {
                let i = choose|i: int| 0 <= i < rest.len() && rest[i] == name;
                assert(longer[i] == name);
            }
            if longer.contains(name) && name != last {
                let i = choose|i: int| 0 <= i < longer.len() && longer[i] == name;
                assert(rest[i] == name);
            }
        }
        if exists|i: int| 0 <= i < front.len() && (#[trigger] front[i]).identity == name {
            let i = choose|i: int| 0 <= i < front.len() && (#[trigger] front[i]).identity == name;
            assert(more[i].identity == name);
        }
        if exists|i: int| 0 <= i < more.len() && (#[trigger] more[i]).identity == name {
            let i = choose|i: int| 0 <= i < more.len() && (#[trigger] more[i]).identity == name;
            if i < end {
                assert(front[i].identity == name);
            }
        }
    }
}

} // verus!
