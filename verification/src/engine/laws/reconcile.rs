//! What reconciling with the store is for: a volume ends up open here or gone from
//! here, by what its head says; and pages and keepers are found where they should
//! be.

use super::super::fetch::{fetch_step, place_from, sources_of, CopyPlace, FetchJob, FetchStep};
use super::super::fault::{ArchiveName, FetchSources, OpenedEntry};
use super::super::reconcile::{
    archived_commit, fenced_off, goes_on_with_head, manifest_wanted, retries, settled,
    FoundManifest, PendingOpen, ReconcileStep, RecoveryEnd,
};
use super::super::stash::{
    eligible_candidates, first_assignment, keeper_spec, ranked, PeerCandidate,
};
use super::super::state::HostState;
use super::super::volume::PageEntry;
use super::fault::turns_are_kept;
use super::seqs::lemma_filter_members;
use crate::head::{ManifestPtr, ReplicaCommitInfo};
use crate::types::HostId;
use vstd::prelude::*;

verus! {

// ---------------------------------------------------------------------------
// Opening and fencing
// ---------------------------------------------------------------------------

/// A volume that is fenced off is gone from here, with exactly its resident pages
/// to be taken from the guest. No other volume is touched.
pub proof fn a_fenced_volume_is_gone(
    before: HostState,
    after: HostState,
    volume: u64,
    pages: Option<Vec<u64>>,
    page: u64,
    elsewhere: u64,
)
    requires
        fenced_off(before, after, volume, pages),
        before.counters.fenced < u64::MAX,
        elsewhere != volume,
    ensures
        !after.volumes@.contains_key(volume),
        before.volumes@.contains_key(volume) ==> {
            &&& pages is Some
            &&& pages->0@.contains(page) <==> before.volumes@[volume].pages@.contains_key(page)
            &&& after.counters.fenced == before.counters.fenced + 1
        },
        !before.volumes@.contains_key(volume) ==> pages is None && after == before,
        after.volumes@.contains_key(elsewhere) == before.volumes@.contains_key(elsewhere),
        before.volumes@.contains_key(elsewhere) ==> after.volumes@[elsewhere]
            == before.volumes@[elsewhere],
        after.scheduled == before.scheduled,
{
}

/// How recovery ends. A volume that has gone meanwhile is left alone. One whose head
/// was only read opens if this host holds it, under its fence or none, and has
/// every archived state, and is fenced otherwise; one whose head was just written
/// here opens.
pub proof fn recovery_ends_by_what_the_head_says(
    before: HostState,
    after: HostState,
    volume: u64,
    pending: PendingOpen,
    published: Option<ReplicaCommitInfo>,
    step: ReconcileStep,
    elsewhere: u64,
)
    requires
        settled(before, after, volume, pending, published, step),
        elsewhere != volume,
    ensures
        ({
            let state = before.volumes@[volume];
            let head = pending.head;
            let here = before.volumes@.contains_key(volume) && match pending.incarnation {
                Some(incarnation) => state.incarnation == incarnation,
                None => true,
            };
            let (capture, seq) = match state.best_record {
                Some(record) => (record.capture_seq, record.seq),
                None => (0u64, 0u64),
            };
            let holds = head.holder == before.host && (head.fence == 0 || head.fence == state.fence)
                && match head.manifest {
                Some(m) => m.capture_seq < capture || (m.capture_seq == capture && m.journal_seq
                    <= seq),
                None => true,
            };
            let may = pending.incarnation is Some || holds;
            &&& !here ==> step == ReconcileStep::End(RecoveryEnd::Gone) && after == before
            &&& here && may ==> {
                &&& step == ReconcileStep::End(
                    RecoveryEnd::Open(
                        if state.outbound {
                            None
                        } else {
                            state.operations.recovery
                        },
                    ),
                )
                &&& after.volumes@.contains_key(volume)
                &&& !state.outbound ==> after.volumes@[volume].ready
                &&& after.volumes@[volume].head_version == Some(pending.version)
                &&& after.volumes@[volume].backed == head.manifest
                &&& after.volumes@[volume].best_record == state.best_record
                &&& after.scheduled@.contains(volume)
            }
            &&& here && !may ==> {
                &&& !after.volumes@.contains_key(volume)
                &&& match step {
                    ReconcileStep::End(RecoveryEnd::Fenced(pages)) => pages is Some,
                    _ => false,
                }
            }
            &&& after.volumes@.contains_key(elsewhere) == before.volumes@.contains_key(elsewhere)
            &&& before.volumes@.contains_key(elsewhere) ==> after.volumes@[elsewhere]
                == before.volumes@[elsewhere]
        }),
{
    turns_are_kept(before.scheduled@, volume, volume);
}

/// The manifest is looked at only for a volume that is going to open and whose head
/// names one; otherwise recovery ends at once.
pub proof fn the_named_manifest_is_looked_at(
    before: HostState,
    after: HostState,
    volume: u64,
    pending: PendingOpen,
    step: ReconcileStep,
)
    requires
        goes_on_with_head(before, after, volume, pending, step),
    ensures
        manifest_wanted(before, volume, pending) matches Some(pointer) ==> {
            &&& step == (ReconcileStep::Manifest { pointer, pending, wait: false })
            &&& after == before
            &&& pending.head.manifest == Some(pointer)
        },
        manifest_wanted(before, volume, pending) is None ==> settled(
            before,
            after,
            volume,
            pending,
            None,
            step,
        ),
        pending.incarnation is Some ==> manifest_wanted(before, volume, pending)
            == pending.head.manifest,
{
}

/// What is known to be archived after recovery: the newest record, if the manifest
/// that was found is the one the head points at and was made from that record.
pub proof fn the_archived_commit_is_the_newest_record(
    host: HostState,
    volume: u64,
    pointer: ManifestPtr,
    found: Option<FoundManifest>,
    record_checksum: u64,
)
    ensures
        archived_commit(host, volume, pointer, found, record_checksum) matches Some(commit) ==> {
            let record = host.volumes@[volume].best_record->0;
            let summary = found->0.summary->0;
            &&& found is Some
            &&& found->0.summary is Some
            &&& host.volumes@.contains_key(volume)
            &&& host.volumes@[volume].best_record is Some
            &&& commit.writer_fence == record.fence
            &&& commit.seq == record.seq
            &&& commit.sync_covered_through == record.sync_covered_through
            &&& found->0.checksum == pointer.checksum
            &&& summary.journal_seq == record.seq
            &&& summary.capture_seq == record.capture_seq
            &&& summary.metadata_checksum == record_checksum
            &&& summary.journal_seq == pointer.journal_seq
            &&& summary.archive_seq == pointer.seq
            &&& summary.writer_fence == pointer.fence
        },
        found is Some && found->0.summary is Some && host.volumes@.contains_key(volume)
            && host.volumes@[volume].best_record is Some && found->0.checksum == pointer.checksum
            && found->0.summary->0.journal_seq == host.volumes@[volume].best_record->0.seq
            && found->0.summary->0.capture_seq == host.volumes@[volume].best_record->0.capture_seq
            && found->0.summary->0.metadata_checksum == record_checksum
            && found->0.summary->0.journal_seq == pointer.journal_seq
            && found->0.summary->0.archive_seq == pointer.seq && found->0.summary->0.writer_fence
            == pointer.fence ==> archived_commit(host, volume, pointer, found, record_checksum)
            is Some,
{
}

/// A retry is counted and changes nothing else.
pub proof fn retries_are_counted(before: HostState, after: HostState)
    requires
        retries(before, after),
        before.counters.store_retries < u64::MAX,
    ensures
        after.counters.store_retries == before.counters.store_retries + 1,
        after.volumes == before.volumes,
        after.scheduled == before.scheduled,
        after.vsets == before.vsets,
{
}

// ---------------------------------------------------------------------------
// Fetching
// ---------------------------------------------------------------------------

/// The places of a copy are tried in order: here, the earlier holder, the second
/// keeper, the archive. Each is tried if there is such a place.
pub proof fn places_are_tried_in_order(sources: FetchSources)
    ensures
        sources.local ==> place_from(sources, 0) == Some(CopyPlace::Local),
        !sources.local ==> place_from(sources, 0) == place_from(sources, 1),
        sources.peer matches Some(peer) ==> place_from(sources, 1) == Some(CopyPlace::Peer(peer)),
        sources.peer is None ==> place_from(sources, 1) == place_from(sources, 2),
        sources.replica matches Some(replica) ==> place_from(sources, 2) == Some(
            CopyPlace::Replica(replica),
        ),
        sources.replica is None ==> place_from(sources, 2) == place_from(sources, 3),
        place_from(sources, 3) == Some(CopyPlace::Archive(sources.archive)),
        place_from(sources, 4) is None,
{
}

/// A copy is taken if it is of the page and generation that are wanted; otherwise
/// the next place is tried, and after the archive there is none.
pub proof fn a_wrong_copy_is_passed_over(
    host: HostState,
    job: FetchJob,
    opened: Option<OpenedEntry>,
)
    ensures
        ({
            let good = opened is Some && opened->0.volume == job.volume && opened->0.page
                == job.page && opened->0.generation == job.entry.generation;
            let step = fetch_step(host, job, opened);
            let sources = sources_of(host, job.volume, job.entry, job.source);
            let at = match job.place {
                CopyPlace::Local => 0int,
                CopyPlace::Peer(_) => 1,
                CopyPlace::Replica(_) => 2,
                CopyPlace::Archive(_) => 3,
            };
            &&& good <==> step is Found
            &&& good ==> step == (FetchStep::Found { bytes: opened->0.bytes, place: job.place })
            &&& !good && at == 3 ==> step is Failed
            &&& !good && at < 3 ==> match step {
                FetchStep::Read(next) => {
                    &&& Some(next.place) == place_from(sources, at + 1)
                    &&& next.volume == job.volume
                    &&& next.page == job.page
                    &&& next.entry == job.entry
                    &&& next.source == job.source
                },
                _ => false,
            }
        }),
{
}

/// Without the volume's state a page is looked for here, with an earlier holder, and
/// in the archive under its own name.
pub proof fn a_page_is_looked_for_without_its_volume(
    host: HostState,
    volume: u64,
    entry: PageEntry,
    source: Option<HostId>,
)
    requires
        !host.volumes@.contains_key(volume),
    ensures
        ({
            let from = sources_of(host, volume, entry, source);
            &&& from.local
            &&& entry.loc.base == 0 ==> from.peer == source && from.archive == (ArchiveName::File {
                origin: volume,
                fence: entry.loc.fence,
                object: entry.loc.object,
            })
            &&& entry.loc.base != 0 ==> from.peer is None && from.archive == (ArchiveName::File {
                origin: entry.loc.base,
                fence: entry.loc.fence,
                object: entry.loc.object,
            })
            &&& from.replica is None
        }),
{
}

// ---------------------------------------------------------------------------
// Keepers
// ---------------------------------------------------------------------------

/// A volume's second keeper can be any host but the holder that is in use and in
/// another failure domain.
pub proof fn keepers_fail_apart_from_the_holder(
    roster: Seq<PeerCandidate>,
    source: HostId,
    failure_domain: u16,
    candidate: PeerCandidate,
)
    ensures
        eligible_candidates(roster, source, failure_domain).contains(candidate)
            <==> roster.contains(candidate) && candidate.host != source && candidate.failure_domain
            != failure_domain && !candidate.drained,
{
    lemma_filter_members(roster, |c: PeerCandidate| c.eligible(source, failure_domain));
}

/// Keepers are ranked by their draw, the highest first, and hosts with the same draw
/// by their number.
pub proof fn the_highest_draw_comes_first(list: Seq<PeerCandidate>, i: int, j: int)
    requires
        ranked(list),
        0 <= i < j < list.len(),
    ensures
        list[i].score >= list[j].score,
        list[i].score == list[j].score ==> list[i].host.0 <= list[j].host.0,
{
    assert(!list[j].before(list[i]));
}

/// Assignments go round the ranked keepers, beginning with the first; without one,
/// or before the first assignment, there is no keeper.
pub proof fn assignments_go_round(list: Seq<PeerCandidate>, epoch: u64)
    ensures
        list.len() == 0 || epoch == 0 <==> keeper_spec(list, epoch) is None,
        list.len() > 0 ==> keeper_spec(list, 1) == Some(list[0].host),
        1 <= epoch <= list.len() ==> keeper_spec(list, epoch) == Some(list[epoch - 1].host),
        list.len() > 0 && epoch > 0 && epoch + list.len() <= u64::MAX ==> keeper_spec(
            list,
            (epoch + list.len()) as u64,
        ) == keeper_spec(list, epoch),
{
    if list.len() > 0 && 1 <= epoch <= list.len() {
        vstd::arithmetic::div_mod::lemma_small_mod((epoch - 1) as nat, list.len());
    }
    if list.len() > 0 {
        vstd::arithmetic::div_mod::lemma_small_mod(0, list.len());
        vstd::arithmetic::div_mod::lemma_mod_add_multiples_vanish(epoch - 1, list.len() as int);
    }
}

/// A volume starts with its first keeper, in the first assignment, and with no
/// change under way.
pub proof fn a_volume_starts_with_its_first_keeper(peer: HostId, membership_epoch: u64)
    ensures
        ({
            let stash = first_assignment(peer, membership_epoch);
            &&& stash.active_peer == peer
            &&& stash.assignment_epoch == 1
            &&& stash.active_assignment_epoch == 1
            &&& stash.transition_peer is None
            &&& stash.membership_epoch == membership_epoch
        }),
{
}

} // verus!
