use blockd_core::engine::archive::{
    archive_step, find_next_missing, install_footer, reset_archived_non_data, resolve_page, ArchiveStep,
};
use blockd_core::engine::capturing::{reset_archive, reset_footer_loaded, ResetStep};
use blockd_core::engine::checksum::replace_state_block;
use blockd_core::engine::compaction::{
    compaction_candidates, file_scanned, live_pages, prepare_rescue, start_compaction,
    CompactionStep, OpenedFrame, ScannedEntry, ScannedFile, COMPACT_BATCH, ROLL_THRESHOLD,
};
use blockd_core::engine::publication::{
    archive_inspected, file_uploaded, files_checked, list_written, manifest_bounded,
    next_publication, partition_rewritten, pending_written, previous_loaded, rewrite_checked,
    BoundJob, PublicationStep,
};
use blockd_core::engine::publish::{
    needs_compaction, partition_groups, plan_uploads, publish_snapshot, start_publication,
    with_uploads, ArchivePlan, PreviousArchive,
};
use blockd_core::engine::state::HostState;
use blockd_core::engine::volume::{
    BlockSum, LocalFile, PageEntry, PageFileLoc, VolumeConfig, VolumeRecord, VolumeRecordKind,
    VolumeState,
};
use blockd_core::head::ManifestPtr;
use blockd_core::manifest::{
    current_files, file_delta, CompleteFileList, ListRef, Manifest,
};
use blockd_core::objects::{
    contains_identity, maximum_overlap, place_object, BlockCopy, BlockKey, BlockSpace, BlxFooter,
    EntryKind, FooterEntry, NamespaceKind, ObjectIdentity, ObjectRef,
};
use blockd_core::types::HostId;
use std::collections::BTreeMap;

const VOLUME: u64 = 7;

fn key(space: BlockSpace, block: u32) -> BlockKey {
    BlockKey { space, block }
}

fn data(block: u32) -> BlockKey {
    key(BlockSpace::Data, block)
}

/// An object of the volume itself, with blocks from `first` to `last`.
fn object(fence: u64, number: u64, first: BlockKey, last: BlockKey) -> ObjectRef {
    ObjectRef {
        identity: ObjectIdentity::volume(VOLUME, fence, number),
        first_key: first,
        last_key: last,
        max_seq: number,
        batch_id: number,
        object_checksum: 0,
        footer_offset: 1000,
        footer_length: 10,
    }
}

fn inherited(base: u64, number: u64, first: BlockKey, last: BlockKey) -> ObjectRef {
    let own = object(1, number, first, last);
    ObjectRef {
        identity: ObjectIdentity {
            namespace_kind: NamespaceKind::ImportedBase,
            namespace_id: base,
            ..own.identity
        },
        ..own
    }
}

fn entry(key: BlockKey, generation: u64, kind: EntryKind, contribution: u64) -> FooterEntry {
    FooterEntry { key, generation, kind, offset: 100, length: 50, contribution }
}

fn volume(config: VolumeConfig) -> VolumeState {
    let mut state = VolumeState::fresh(config, 1);
    state.ready = true;
    state
}

fn names(objects: &[ObjectRef]) -> Vec<u64> {
    objects.iter().map(|object| object.identity.object_id).collect()
}

#[test]
fn keys_are_ordered_by_space_and_block() {
    assert_eq!(data(5).code(), 5);
    assert_eq!(key(BlockSpace::Memory, 0).code(), 0x1_0000_0000);
    assert_eq!(key(BlockSpace::Vmm, 3).code(), 0x2_0000_0003);
    assert_eq!(key(BlockSpace::Vmm, 3).file_partition(), 2);
    let range = object(1, 0, data(2), data(4));
    assert!(range.covers(data(2)) && range.covers(data(4)));
    assert!(!range.covers(data(1)) && !range.covers(data(5)));
}

#[test]
fn objects_are_kept_in_order_and_once() {
    let mut list = Vec::new();
    for number in [3, 1, 2] {
        place_object(&mut list, object(1, number, data(0), data(0)));
    }
    assert_eq!(names(&list), vec![1, 2, 3]);
    let wider = object(1, 2, data(0), data(9));
    place_object(&mut list, wider);
    assert_eq!(list.len(), 3);
    assert_eq!(list[1], wider);
    assert!(contains_identity(&list, wider.identity));
    assert!(!contains_identity(&list, object(2, 2, data(0), data(0)).identity));
    place_object(&mut list, object(0, 9, data(0), data(0)));
    assert_eq!(names(&list), vec![9, 1, 2, 3], "an earlier writer comes first");
}

#[test]
fn overlap_is_counted_at_its_worst_key() {
    assert_eq!(maximum_overlap(&Vec::new()), 0);
    let list = vec![
        object(1, 1, data(0), data(4)),
        object(1, 2, data(3), data(8)),
        object(1, 3, data(4), data(4)),
        object(1, 4, data(9), data(9)),
    ];
    assert_eq!(maximum_overlap(&list), 3);
    assert!(needs_compaction(&list, 3));
    assert!(!needs_compaction(&list, 4));
}

#[test]
fn a_footer_belongs_to_its_object() {
    let whole = object(1, 1, data(2), data(3));
    let first = entry(data(2), 4, EntryKind::Data, 1);
    let last = entry(data(3), 5, EntryKind::Tombstone, 0);
    assert!(BlxFooter { entries: vec![first, last] }.verify(&whole));
    assert!(!BlxFooter { entries: Vec::new() }.verify(&whole));
    assert!(!BlxFooter { entries: vec![first] }.verify(&whole));
    assert!(!BlxFooter { entries: vec![last] }.verify(&whole));
    let outside = FooterEntry { offset: 990, length: 11, ..last };
    assert!(!BlxFooter { entries: vec![first, outside] }.verify(&whole));
    let footer = BlxFooter { entries: vec![first, last] };
    assert_eq!(footer.find(data(3)), Some(last));
    assert_eq!(footer.find(data(4)), None);
}

#[test]
fn the_newer_copy_of_a_block_counts() {
    let copy = |generation, own, number| BlockCopy {
        entry: entry(data(0), generation, EntryKind::Data, 0),
        own,
        object: object(1, number, data(0), data(0)),
    };
    assert!(copy(2, false, 0).newer(copy(1, true, 9)));
    assert!(copy(1, true, 0).newer(copy(1, false, 9)));
    assert!(copy(1, true, 2).newer(copy(1, true, 1)));
    assert!(!copy(1, true, 1).newer(copy(1, true, 1)));
}

#[test]
fn an_archived_state_is_a_difference() {
    let baseline = vec![object(1, 1, data(0), data(0)), object(1, 2, data(0), data(0))];
    let current = vec![object(1, 2, data(0), data(0)), object(1, 3, data(0), data(0))];
    let delta = file_delta(&baseline, &current);
    assert_eq!(names(&delta.added), vec![3]);
    assert_eq!(delta.removed, vec![baseline[0].identity]);
    assert_eq!(current_files(&baseline, &delta.added, &delta.removed), current);
    assert_eq!(current_files(&baseline, &Vec::new(), &Vec::new()), baseline);
}

#[test]
fn the_state_checksum_follows_its_blocks() {
    let mut checksum = 0b1000;
    let mut blocks = BTreeMap::new();
    let sum = |contribution| Some(BlockSum { generation: 1, contribution });
    replace_state_block(&mut checksum, &mut blocks, 4, sum(0b0011));
    assert_eq!(checksum, 0b1011);
    replace_state_block(&mut checksum, &mut blocks, 5, sum(0b0100));
    replace_state_block(&mut checksum, &mut blocks, 4, sum(0b0001));
    assert_eq!(checksum, 0b1101);
    replace_state_block(&mut checksum, &mut blocks, 4, None);
    replace_state_block(&mut checksum, &mut blocks, 5, None);
    assert_eq!((checksum, blocks.len()), (0b1000, 0));
}

#[test]
fn a_page_is_resolved_from_the_footers_that_may_have_it() {
    let mut state = volume(VolumeConfig::data(16));
    let own = object(3, 1, data(0), data(4));
    let base = inherited(9, 5, data(2), data(2));
    let elsewhere = object(3, 2, data(8), data(9));
    state.archive_objects = vec![own, elsewhere, base];
    assert_eq!(archive_step(&state, 2), ArchiveStep::Fetch(own));
    let footer = BlxFooter {
        entries: vec![
            entry(data(0), 1, EntryKind::Data, 5),
            entry(data(2), 6, EntryKind::Data, 6),
            entry(data(4), 1, EntryKind::Tombstone, 0),
        ],
    };
    assert!(install_footer(&mut state, &own, footer));
    assert_eq!(archive_step(&state, 2), ArchiveStep::Fetch(base));
    let wrong = BlxFooter { entries: vec![entry(data(3), 9, EntryKind::Data, 0)] };
    assert!(!install_footer(&mut state, &base, wrong));
    let right = BlxFooter { entries: vec![entry(data(2), 9, EntryKind::Data, 7)] };
    assert!(install_footer(&mut state, &base, right));
    assert_eq!(archive_step(&state, 2), ArchiveStep::Resolve);

    resolve_page(&mut state, VOLUME, 2);
    assert_eq!(archive_step(&state, 2), ArchiveStep::Ready);
    let inherited_copy = PageFileLoc { base: 9, fence: 1, object: 5, offset: 100, len: 50 };
    assert_eq!(state.page_locs[&2], PageEntry { generation: 9, loc: inherited_copy });
    assert_eq!(state.blocks[&2], BlockSum { generation: 9, contribution: 7 });
    assert_eq!(state.next_gen, 10);

    resolve_page(&mut state, VOLUME, 0);
    assert_eq!(state.page_locs[&0].loc.base, 0, "the volume's own file");
    assert_eq!(state.next_gen, 10);
    resolve_page(&mut state, VOLUME, 4);
    assert!(!state.page_locs.contains_key(&4), "the block was given up");
    assert!(state.archive_resolved.contains(&4));
    resolve_page(&mut state, VOLUME, 12);
    assert!(!state.page_locs.contains_key(&12));
}

#[test]
fn footers_are_kept_all_or_none() {
    let mut host = HostState::new(HostId(0), None, 0);
    host.insert_fresh_volume(VOLUME, VolumeConfig::memory(4));
    let first = object(1, 1, key(BlockSpace::Memory, 0), key(BlockSpace::Memory, 0));
    let second = object(1, 2, key(BlockSpace::Memory, 1), key(BlockSpace::Memory, 1));
    let state = host.volumes.get_mut(&VOLUME).expect("inserted");
    state.archive_objects = vec![first, second];
    state.archived_non_data_reset = false;
    let footer = |block, contribution| {
        let entries =
            vec![entry(key(BlockSpace::Memory, block), 4, EntryKind::Data, contribution)];
        Some(BlxFooter { entries })
    };
    let ResetStep::Footer(job) = reset_archive(&mut host, VOLUME) else {
        panic!("no footer is there");
    };
    assert_eq!(job.next(), first);
    let ResetStep::Footer(job) = reset_footer_loaded(&mut host, VOLUME, job, footer(0, 0b001))
    else {
        panic!("one is missing");
    };
    assert_eq!(job.next(), second);
    assert!(matches!(
        reset_footer_loaded(&mut host, VOLUME, job, footer(3, 0b010)),
        ResetStep::GiveUp
    ));
    assert!(host.volumes[&VOLUME].archive_footers.is_empty());
    assert!(!host.volumes[&VOLUME].archived_non_data_reset);

    let ResetStep::Footer(job) = reset_archive(&mut host, VOLUME) else {
        panic!("no footer was kept");
    };
    let ResetStep::Footer(job) = reset_footer_loaded(&mut host, VOLUME, job, footer(0, 0b001))
    else {
        panic!("one is missing");
    };
    assert!(matches!(
        reset_footer_loaded(&mut host, VOLUME, job, footer(1, 0b010)),
        ResetStep::Ready
    ));
    let state = &host.volumes[&VOLUME];
    assert_eq!((state.archive_footers.len(), state.state_checksum, state.next_gen), (2, 0b011, 5));
    assert!(state.archived_non_data_reset);
}

#[test]
fn forgetting_goes_by_the_footers_it_began_with() {
    let mut host = HostState::new(HostId(0), None, 0);
    host.insert_fresh_volume(VOLUME, VolumeConfig::memory(4));
    let known = object(1, 1, key(BlockSpace::Memory, 0), key(BlockSpace::Memory, 0));
    let missing = object(1, 2, key(BlockSpace::Memory, 1), key(BlockSpace::Memory, 1));
    let plain = object(1, 3, data(0), data(1));
    let footer = |first, last| {
        let entries =
            vec![entry(first, 4, EntryKind::Data, 1), entry(last, 4, EntryKind::Data, 2)];
        BlxFooter { entries }
    };
    let state = host.volumes.get_mut(&VOLUME).expect("inserted");
    state.archive_objects = vec![known, missing, plain];
    state.archived_non_data_reset = false;
    assert!(install_footer(state, &known, footer(known.first_key, known.last_key)));
    let ResetStep::Footer(job) = reset_archive(&mut host, VOLUME) else {
        panic!("a footer is missing");
    };
    assert_eq!((job.next(), job.footers.len()), (missing, 1));

    // A fault loads another footer meanwhile.
    let state = host.volumes.get_mut(&VOLUME).expect("inserted");
    assert!(install_footer(state, &plain, footer(plain.first_key, plain.last_key)));
    assert_eq!(state.archive_footers.len(), 2);
    let loaded = Some(footer(missing.first_key, missing.last_key));
    assert!(matches!(
        reset_footer_loaded(&mut host, VOLUME, job, loaded),
        ResetStep::Ready
    ));
    let kept: Vec<_> =
        host.volumes[&VOLUME].archive_footers.iter().map(|footer| footer.identity).collect();
    assert_eq!(kept, vec![known.identity, missing.identity]);
}

#[test]
fn archived_memory_that_must_not_be_used_is_forgotten() {
    let mut state = volume(VolumeConfig::memory(4));
    let memory = object(1, 1, key(BlockSpace::Memory, 0), key(BlockSpace::Vmm, 0));
    let plain = object(1, 2, data(0), data(1));
    state.archive_objects = vec![memory, plain];
    state.archived_non_data_reset = false;
    state.state_checksum = 0b111;
    assert_eq!(find_next_missing(&state.archive_objects, &state.archive_footers, 0), 0);
    assert_eq!(find_next_missing(&state.archive_objects, &state.archive_footers, 1), 2);
    let footer = BlxFooter {
        entries: vec![
            entry(key(BlockSpace::Memory, 0), 4, EntryKind::Data, 0b001),
            entry(key(BlockSpace::Memory, 0), 3, EntryKind::Data, 0b100),
            entry(key(BlockSpace::Memory, 1), 8, EntryKind::Tombstone, 0b100),
            entry(key(BlockSpace::Vmm, 0), 2, EntryKind::Data, 0b010),
        ],
    };
    assert!(install_footer(&mut state, &memory, footer));
    assert_eq!(find_next_missing(&state.archive_objects, &state.archive_footers, 0), 2);
    let objects = state.archive_objects.clone();
    let footers = std::mem::take(&mut state.archive_footers);
    reset_archived_non_data(&mut state, VOLUME, &objects, footers);
    assert_eq!(state.archive_footers.len(), 1);
    assert_eq!(state.state_checksum, 0b100);
    assert_eq!(state.next_gen, 9);
    assert!(state.archived_non_data_reset);
    reset_archived_non_data(&mut state, VOLUME, &objects, Vec::new());
    assert_eq!(state.state_checksum, 0b100, "once is enough");

    state.archived_memory_usable = false;
    assert_eq!(archive_step(&state, 0), ArchiveStep::Resolve);
    resolve_page(&mut state, VOLUME, 0);
    assert!(!state.page_locs.contains_key(&0));
}

/// A volume with `files` files of ten pages each, of which the first `live` are
/// still current.
fn sparse_volume(files: u64, live: u64) -> VolumeState {
    let mut state = volume(VolumeConfig::data(4096));
    for number in 0..files {
        let identity = ObjectIdentity::volume(VOLUME, 1, number);
        state.files.push(LocalFile { identity, bytes: 1000 });
        for slot in 0..live {
            let loc = PageFileLoc {
                base: 0,
                fence: 1,
                object: number,
                offset: (slot * 100) as u32,
                len: 100 - number as u32,
            };
            state.page_locs.insert(number * 10 + slot, PageEntry { generation: 1, loc });
        }
    }
    // Pages of another file, so that there is enough to be worth the work.
    for page in 0..ROLL_THRESHOLD as u64 {
        let loc = PageFileLoc { base: 0, fence: 9, object: 9, offset: 0, len: 1 };
        state.page_locs.insert(2000 + page, PageEntry { generation: 1, loc });
    }
    state
}

#[test]
fn the_sparsest_files_are_compacted_first() {
    let state = sparse_volume(3, 4);
    let chosen = compaction_candidates(&state, VOLUME);
    let found: Vec<(u64, u64)> =
        chosen.iter().map(|candidate| (candidate.ratio, candidate.identity.object_id)).collect();
    assert_eq!(found, vec![(392_000, 2), (396_000, 1), (400_000, 0)]);
    assert_eq!(live_pages(&state, VOLUME, chosen[0].identity), vec![20, 21, 22, 23]);

    assert_eq!(compaction_candidates(&sparse_volume(20, 4), VOLUME).len(), COMPACT_BATCH);
    assert!(compaction_candidates(&sparse_volume(3, 6), VOLUME).is_empty(), "more than half");
    assert!(compaction_candidates(&sparse_volume(3, 0), VOLUME).is_empty(), "nothing to move");
    let mut leaving = sparse_volume(3, 4);
    leaving.outbound = true;
    assert!(compaction_candidates(&leaving, VOLUME).is_empty());
    let mut small = sparse_volume(3, 4);
    small.page_locs.retain(|page, _| *page < 2000);
    assert!(compaction_candidates(&small, VOLUME).is_empty());
}

/// The file as it would be read back, with one page that is no longer current.
fn scanned(state: &VolumeState, number: u64) -> ScannedFile {
    let mut entries: Vec<ScannedEntry> =
        live_pages(state, VOLUME, ObjectIdentity::volume(VOLUME, 1, number))
            .into_iter()
            .map(|page| {
                let entry = state.page_locs[&page];
                let frame =
                    OpenedFrame { page, generation: entry.generation, bytes: vec![page as u8; 8] };
                ScannedEntry { page, entry, frame: Some(frame) }
            })
            .collect();
    let loc = PageFileLoc { base: 0, fence: 1, object: number, offset: 900, len: 100 };
    entries.push(ScannedEntry { page: 9, entry: PageEntry { generation: 0, loc }, frame: None });
    ScannedFile { volume: VOLUME, fence: 1, object: number, entries }
}

#[test]
fn only_whole_and_sound_files_are_given_up() {
    let state = sparse_volume(2, 3);
    let rescue = prepare_rescue(&state, VOLUME, 1, 1, &scanned(&state, 1)).expect("sound");
    assert_eq!((rescue.victim_fence, rescue.victim_object), (1, 1));
    let pages: Vec<u64> = rescue.entries.iter().map(|entry| entry.page).collect();
    assert_eq!(pages, vec![10, 11, 12]);
    assert_eq!(rescue.entries[0].bytes, vec![10; 8]);

    let mut missing = scanned(&state, 1);
    missing.entries.remove(0);
    assert!(prepare_rescue(&state, VOLUME, 1, 1, &missing).is_none());
    let mut damaged = scanned(&state, 1);
    damaged.entries[1].frame = None;
    assert!(prepare_rescue(&state, VOLUME, 1, 1, &damaged).is_none());
    let mut swapped = scanned(&state, 1);
    if let Some(frame) = &mut swapped.entries[1].frame {
        frame.page = 10;
    }
    assert!(prepare_rescue(&state, VOLUME, 1, 1, &swapped).is_none());
    assert!(prepare_rescue(&state, VOLUME, 1, 0, &scanned(&state, 1)).is_none());
}

#[test]
fn compaction_leaves_files_alone_that_cannot_be_read() {
    let mut host = HostState::new(HostId(0), None, 0);
    assert!(matches!(start_compaction(&host, VOLUME), CompactionStep::Ready(prepared) if prepared.is_empty()));
    host.insert_fresh_volume(VOLUME, VolumeConfig::data(4096));
    host.volumes.insert(VOLUME, sparse_volume(2, 3));
    let CompactionStep::Scan(job) = start_compaction(&host, VOLUME) else {
        panic!("two files are sparse");
    };
    assert_eq!(job.candidates.len(), 2);
    let CompactionStep::Scan(job) = file_scanned(&host, job, None) else {
        panic!("the second file is read");
    };
    let number = job.candidates[job.done].identity.object_id;
    let file = scanned(&host.volumes[&VOLUME], number);
    let CompactionStep::Ready(prepared) = file_scanned(&host, job, Some(file)) else {
        panic!("both files were read");
    };
    assert_eq!(prepared.len(), 1);
    assert_eq!(prepared[0].victim_object, number);
}

#[test]
fn new_files_are_uploaded_once() {
    let archived = vec![object(1, 1, data(0), data(0))];
    let own = vec![
        object(1, 1, data(0), data(0)),
        object(1, 2, data(0), data(0)),
        object(1, 6, data(0), data(0)),
        object(2, 2, data(0), data(0)),
        object(1, 6, data(0), data(0)),
    ];
    let files = plan_uploads(&archived, &own, Some((1, 5)));
    assert_eq!(files, vec![own[2], own[3]], "what one writer archived says nothing of another's");
    assert_eq!(plan_uploads(&archived, &own, None), vec![own[1], own[2], own[3]]);
    let all = with_uploads(archived, &files);
    assert_eq!(names(&all), vec![1, 6, 2]);
}

#[test]
fn files_are_grouped_by_partition() {
    let memory = |number, block| {
        object(1, number, key(BlockSpace::Memory, block), key(BlockSpace::Memory, block))
    };
    let files = vec![memory(1, 0), object(1, 2, data(0), data(3)), memory(3, 2)];
    let groups = partition_groups(&files).expect("no file mixes spaces");
    assert_eq!(groups, vec![vec![files[1]], vec![files[0], files[2]]]);
    let mixed = vec![object(1, 1, data(0), key(BlockSpace::Memory, 0))];
    assert!(partition_groups(&mixed).is_none());
    assert_eq!(partition_groups(&Vec::new()), Some(Vec::new()));
}

/// A host with one volume whose newest state has two files.
fn publishing_host() -> (HostState, u64) {
    let mut host = HostState::new(HostId(0), None, 0);
    host.insert_fresh_volume(VOLUME, VolumeConfig::data(16));
    let state = host.volumes.get_mut(&VOLUME).expect("inserted");
    state.ready = true;
    state.fence = 1;
    state.head_version = Some(1);
    state.best_record = Some(VolumeRecord {
        config: VolumeConfig::data(16),
        seq: 4,
        fence: 1,
        kind: VolumeRecordKind::Commit,
        capture_seq: 6,
        sync_covered_through: 5,
        post_state_checksum: 77,
        files: vec![
            object(1, 1, data(0), data(3)),
            object(1, 2, data(2), data(5)),
            inherited(9, 3, data(0), data(0)),
        ],
        page_index: BTreeMap::new(),
        migrated_from: None,
    });
    let incarnation = start_publication(&mut host, VOLUME).expect("free");
    assert!(start_publication(&mut host, VOLUME).is_none(), "one at a time");
    (host, incarnation)
}

/// The same description again.
fn described(manifest: &Manifest) -> Manifest {
    Manifest { added: manifest.added.clone(), removed: manifest.removed.clone(), ..*manifest }
}

#[test]
fn a_description_that_is_too_long_gets_a_new_list() {
    let (mut host, incarnation) = publishing_host();
    let PublicationStep::Load { snapshot, .. } = next_publication(&mut host, VOLUME, incarnation)
    else {
        panic!("nothing is published");
    };
    let manifest = Manifest {
        volume: VOLUME,
        writer_fence: 1,
        journal_seq: 4,
        archive_seq: 3,
        capture_seq: 6,
        sync_covered_through: 5,
        kind: VolumeRecordKind::Commit,
        config: VolumeConfig::data(16),
        base: None,
        complete_list: None,
        post_state_checksum: 77,
        metadata_checksum: 55,
        added: Vec::new(),
        removed: Vec::new(),
    };
    let job = |snapshot| BoundJob {
        snapshot,
        previous: None,
        plan: ArchivePlan { manifest: described(&manifest), list: None },
    };
    let again = publish_snapshot(&host, VOLUME, incarnation).expect("commit");
    assert!(matches!(
        manifest_bounded(&host, VOLUME, incarnation, job(again), None),
        PublicationStep::Wait
    ));
    let list = CompleteFileList { volume: VOLUME, writer_fence: 1, list_id: 3, objects: Vec::new() };
    let short = ArchivePlan {
        manifest: Manifest { complete_list: Some(list.reference()), ..described(&manifest) },
        list: Some(list),
    };
    let PublicationStep::WriteList(next) =
        manifest_bounded(&host, VOLUME, incarnation, job(snapshot), Some(short))
    else {
        panic!("the new list is written");
    };
    assert_eq!(
        next.plan.manifest.complete_list,
        Some(ListRef { writer_fence: 1, list_id: 3 })
    );
}

#[test]
fn the_first_archived_state_is_listed_in_full() {
    let (mut host, incarnation) = publishing_host();
    let PublicationStep::Load { snapshot, forced } =
        next_publication(&mut host, VOLUME, incarnation)
    else {
        panic!("nothing is published");
    };
    assert!(!forced);
    assert_eq!(host.volumes[&VOLUME].publishing_files.len(), 2);
    let PublicationStep::Upload(job) =
        previous_loaded(&host, VOLUME, incarnation, snapshot, forced, Some(None))
    else {
        panic!("two files are new");
    };
    assert_eq!(names(&job.files), vec![1, 2]);
    let PublicationStep::Upload(job) = file_uploaded(&host, VOLUME, incarnation, job, true) else {
        panic!("the second file is uploaded");
    };
    let PublicationStep::Check(job) = file_uploaded(&host, VOLUME, incarnation, job, true) else {
        panic!("both files are uploaded");
    };
    let PublicationStep::Bound(job) =
        files_checked(&host, VOLUME, incarnation, job, true, 2, None, 55)
    else {
        panic!("the files add up");
    };
    let short = ArchivePlan { manifest: described(&job.plan.manifest), list: None };
    let PublicationStep::WriteList(job) =
        manifest_bounded(&host, VOLUME, incarnation, job, Some(short))
    else {
        panic!("the first state has a list");
    };
    let list = job.plan.list.as_ref().expect("in full");
    assert_eq!(names(&list.objects), vec![1, 2]);
    assert_eq!(list.reference(), ListRef { writer_fence: 1, list_id: 4 });
    let manifest = &job.plan.manifest;
    assert_eq!((manifest.archive_seq, manifest.journal_seq, manifest.capture_seq), (0, 4, 6));
    assert_eq!((manifest.post_state_checksum, manifest.metadata_checksum), (77, 55));
    assert!(manifest.added.is_empty() && manifest.removed.is_empty());
    let PublicationStep::WritePending(job) = list_written(&host, VOLUME, incarnation, job, true)
    else {
        panic!("the list is written");
    };
    assert!(matches!(
        pending_written(&host, VOLUME, incarnation, job, None),
        PublicationStep::Wait
    ));
}

#[test]
fn files_that_do_not_add_up_are_rewritten() {
    let (mut host, incarnation) = publishing_host();
    let PublicationStep::Load { snapshot, .. } = next_publication(&mut host, VOLUME, incarnation)
    else {
        panic!("nothing is published");
    };
    let previous = || {
        let (mut other, at) = publishing_host();
        let PublicationStep::Load { snapshot, .. } = next_publication(&mut other, VOLUME, at)
        else {
            panic!("nothing is published");
        };
        let PublicationStep::Upload(job) =
            previous_loaded(&other, VOLUME, at, snapshot, false, Some(None))
        else {
            panic!("two files are new");
        };
        let PublicationStep::Upload(job) = file_uploaded(&other, VOLUME, at, job, true) else {
            panic!("the second file is uploaded");
        };
        let PublicationStep::Check(job) = file_uploaded(&other, VOLUME, at, job, true) else {
            panic!("both files are uploaded");
        };
        let PublicationStep::Bound(job) =
            files_checked(&other, VOLUME, at, job, true, 9, None, 55)
        else {
            panic!("the files add up");
        };
        PreviousArchive { manifest: job.plan.manifest, list: job.plan.list }
    };
    let PublicationStep::Check(job) =
        previous_loaded(&host, VOLUME, incarnation, snapshot, true, Some(Some(previous())))
    else {
        panic!("no file is new");
    };
    assert_eq!(names(&job.files), vec![1, 2]);
    let PublicationStep::Rewrite(job) =
        files_checked(&host, VOLUME, incarnation, job, true, 2, Some(30), 55)
    else {
        panic!("two files share a key");
    };
    assert_eq!((job.groups.len(), job.next_object), (1, 30));
    let merged = object(1, 30, data(0), data(5));
    let PublicationStep::Recheck(job) =
        partition_rewritten(&host, VOLUME, incarnation, job, Some(vec![merged]))
    else {
        panic!("there is one partition");
    };
    assert_eq!(job.next_object, 31);
    let PublicationStep::Bound(job) =
        rewrite_checked(&host, VOLUME, incarnation, job, true, 56)
    else {
        panic!("the new file adds up");
    };
    let short = ArchivePlan { manifest: described(&job.plan.manifest), list: None };
    let PublicationStep::WritePending(job) =
        manifest_bounded(&host, VOLUME, incarnation, job, Some(short))
    else {
        panic!("a difference needs no list");
    };
    let manifest = &job.plan.manifest;
    assert_eq!(manifest.archive_seq, 1);
    assert_eq!(manifest.added, vec![merged]);
    assert_eq!(manifest.removed.len(), 2);
    assert_eq!(manifest.complete_list, Some(ListRef { writer_fence: 1, list_id: 4 }));
    let pointer = ManifestPtr { fence: 1, seq: 1, journal_seq: 4, capture_seq: 6, checksum: 3 };
    let PublicationStep::WriteManifest(job) =
        pending_written(&host, VOLUME, incarnation, job, Some(pointer))
    else {
        panic!("the manifest is kept");
    };
    assert_eq!(job.pointer, pointer);
}

#[test]
fn a_publication_that_fails_begins_anew() {
    let (mut host, incarnation) = publishing_host();
    let PublicationStep::Load { snapshot, .. } = next_publication(&mut host, VOLUME, incarnation)
    else {
        panic!("nothing is published");
    };
    assert!(matches!(
        previous_loaded(&host, VOLUME, incarnation, snapshot, false, None),
        PublicationStep::Wait
    ));
    let PublicationStep::Load { snapshot, .. } = next_publication(&mut host, VOLUME, incarnation)
    else {
        panic!("nothing is published");
    };
    let PublicationStep::Upload(job) =
        previous_loaded(&host, VOLUME, incarnation, snapshot, false, Some(None))
    else {
        panic!("two files are new");
    };
    assert!(matches!(
        file_uploaded(&host, VOLUME, incarnation, job, false),
        PublicationStep::Wait
    ));
    let state = host.volumes.get_mut(&VOLUME).expect("volume");
    state.backed =
        Some(ManifestPtr { fence: 1, seq: 0, journal_seq: 4, capture_seq: 6, checksum: 0 });
    let PublicationStep::Inspect(snapshot) = next_publication(&mut host, VOLUME, incarnation)
    else {
        panic!("the state is published");
    };
    let files = snapshot.own_objects.clone();
    assert!(matches!(
        archive_inspected(&host, VOLUME, incarnation, snapshot, Some(files.clone()), 3),
        PublicationStep::Stop
    ));
    let PublicationStep::Inspect(snapshot) = next_publication(&mut host, VOLUME, incarnation)
    else {
        panic!("the state is published");
    };
    assert!(matches!(
        archive_inspected(&host, VOLUME, incarnation, snapshot, Some(files), 2),
        PublicationStep::Load { forced: true, .. }
    ));
    host.volumes.remove(&VOLUME);
    assert!(matches!(next_publication(&mut host, VOLUME, incarnation), PublicationStep::Stop));
}

#[test]
fn a_list_is_referred_to_by_its_writer_and_number() {
    let list = CompleteFileList { volume: VOLUME, writer_fence: 3, list_id: 8, objects: Vec::new() };
    assert_eq!(list.reference(), ListRef { writer_fence: 3, list_id: 8 });
}
