//! Blobs of volumes on the local device, and the two copies of a record.

use super::maps::{lists_keys, sorted_keys};
use super::state::{follows, BlobLedger, HostState, StoredBlob, VolumeBlob, VolumeBlobKind};
use super::volume::{VolumeRecord, VolumeState};
use crate::store::BlobError;
use vstd::prelude::*;

verus! {

broadcast use vstd::std_specs::btree::group_btree_axioms;

// ---------------------------------------------------------------------------
// Known blobs
// ---------------------------------------------------------------------------

/// Where `name` stands in the list from `from` on, or the list's length.
pub open spec fn place_of(blobs: Seq<StoredBlob>, name: VolumeBlob, from: int) -> int
    decreases blobs.len() - from,
{
    if from < 0 || from >= blobs.len() {
        blobs.len() as int
    } else if blobs[from].name == name {
        from
    } else {
        place_of(blobs, name, from + 1)
    }
}

/// The length of a known blob.
pub open spec fn blob_size(blobs: Seq<StoredBlob>, name: VolumeBlob) -> Option<u64> {
    let at = place_of(blobs, name, 0);
    if at < blobs.len() {
        Some(blobs[at].bytes)
    } else {
        None
    }
}

/// The list once `name` is known to have `bytes`.
pub open spec fn with_blob(blobs: Seq<StoredBlob>, name: VolumeBlob, bytes: u64) -> Seq<StoredBlob> {
    let at = place_of(blobs, name, 0);
    if at < blobs.len() {
        blobs.update(at, StoredBlob { name, bytes })
    } else {
        blobs.push(StoredBlob { name, bytes })
    }
}

fn find_place(blobs: &Vec<StoredBlob>, name: VolumeBlob) -> (at: usize)
    ensures
        at == place_of(blobs@, name, 0),
{
    let mut at: usize = 0;
    while at < blobs.len() && blobs[at].name != name
        invariant
            at <= blobs@.len(),
            place_of(blobs@, name, 0) == place_of(blobs@, name, at as int),
        decreases blobs@.len() - at,
    {
        at = at + 1;
    }
    at
}

proof fn lemma_place(blobs: Seq<StoredBlob>, name: VolumeBlob, from: int)
    requires
        0 <= from <= blobs.len(),
    ensures
        from <= place_of(blobs, name, from) <= blobs.len(),
        place_of(blobs, name, from) < blobs.len() ==> blobs[place_of(blobs, name, from)].name
            == name,
    decreases blobs.len() - from,
{
    if from < blobs.len() && blobs[from].name != name {
        lemma_place(blobs, name, from + 1);
    }
}

/// Bytes on the device once a blob of `old_size` has become one of `bytes`.
pub open spec fn used_with(used: u64, old_size: Option<u64>, bytes: u64) -> int {
    let rest = match old_size {
        Some(size) => if used >= size {
            used - size
        } else {
            0
        },
        None => used as int,
    };
    rest + bytes
}

/// Notes that a blob was written.
pub fn record_blob(host: &mut HostState, name: VolumeBlob, bytes: u64)
    requires
        old(host).ledger.used + bytes <= u64::MAX,
    ensures
        *final(host) == (HostState {
            blobs: final(host).blobs,
            ledger: BlobLedger {
                used: used_with(
                    old(host).ledger.used,
                    blob_size(old(host).blobs@, name),
                    bytes,
                ) as u64,
                ..old(host).ledger
            },
            ..*old(host)
        }),
        final(host).blobs@ == with_blob(old(host).blobs@, name, bytes),
        follows(*old(host), *final(host)),
{
    let at: usize = find_place(&host.blobs, name);
    proof {
        lemma_place(host.blobs@, name, 0);
    }
    if at < host.blobs.len() {
        host.ledger.used = host.ledger.used.saturating_sub(host.blobs[at].bytes) + bytes;
        host.blobs.set(at, StoredBlob { name, bytes });
    } else {
        host.ledger.used = host.ledger.used + bytes;
        host.blobs.push(StoredBlob { name, bytes });
    }
}

// ---------------------------------------------------------------------------
// Copies of a record
// ---------------------------------------------------------------------------

pub open spec fn record_name(volume: u64, fence: u64, seq: u64, mirror: bool) -> VolumeBlob {
    VolumeBlob {
        volume,
        fence,
        kind: if mirror {
            VolumeBlobKind::RecordMirror
        } else {
            VolumeBlobKind::Record
        },
        number: seq,
    }
}

fn name_record(volume: u64, fence: u64, seq: u64, mirror: bool) -> (name: VolumeBlob)
    ensures
        name == record_name(volume, fence, seq, mirror),
{
    let kind = if mirror {
        VolumeBlobKind::RecordMirror
    } else {
        VolumeBlobKind::Record
    };
    VolumeBlob { volume, fence, kind, number: seq }
}

/// What more a blob of `bytes` takes than the one it replaces.
pub open spec fn growth(blobs: Seq<StoredBlob>, name: VolumeBlob, bytes: u64) -> u64 {
    match blob_size(blobs, name) {
        Some(size) => if bytes >= size {
            (bytes - size) as u64
        } else {
            0
        },
        None => bytes,
    }
}

pub fn growth_of(blobs: &Vec<StoredBlob>, name: VolumeBlob, bytes: u64) -> (more: u64)
    ensures
        more == growth(blobs@, name, bytes),
{
    let at: usize = find_place(blobs, name);
    proof {
        lemma_place(blobs@, name, 0);
    }
    if at < blobs.len() {
        bytes.saturating_sub(blobs[at].bytes)
    } else {
        bytes
    }
}

/// Room set aside for the two copies of a record.
#[derive(Clone, Copy, PartialEq, Eq, Debug, Structural)]
pub struct CopyReservation {
    pub primary: u64,
    pub mirror: u64,
}

pub open spec fn copy_reservation(
    blobs: Seq<StoredBlob>,
    volume: u64,
    fence: u64,
    seq: u64,
    bytes: u64,
) -> CopyReservation {
    CopyReservation {
        primary: growth(blobs, record_name(volume, fence, seq, false), bytes),
        mirror: growth(blobs, record_name(volume, fence, seq, true), bytes),
    }
}

/// Both copies fit on the device. Records may use the headroom.
pub open spec fn copies_fit(ledger: BlobLedger, need: int) -> bool {
    &&& ledger.reserved + need <= u64::MAX
    &&& ledger.capacity matches Some(capacity) ==> ledger.used + ledger.reserved + need <= capacity
}

/// Sets room aside for the two copies of a record, if there is enough.
pub fn reserve_record_copies(
    host: &mut HostState,
    volume: u64,
    fence: u64,
    seq: u64,
    bytes: u64,
) -> (reservation: Option<CopyReservation>)
    ensures
        ({
            let wanted = copy_reservation(old(host).blobs@, volume, fence, seq, bytes);
            let need = wanted.primary + wanted.mirror;
            if copies_fit(old(host).ledger, need) {
                reservation == Some(wanted) && *final(host) == (HostState {
                    ledger: BlobLedger {
                        reserved: (old(host).ledger.reserved + need) as u64,
                        ..old(host).ledger
                    },
                    ..*old(host)
                })
            } else {
                reservation is None && *final(host) == *old(host)
            }
        }),
        follows(*old(host), *final(host)),
{
    let primary: u64 = growth_of(&host.blobs, name_record(volume, fence, seq, false), bytes);
    let mirror: u64 = growth_of(&host.blobs, name_record(volume, fence, seq, true), bytes);
    let need: u128 = primary as u128 + mirror as u128;
    let reserved: u128 = host.ledger.reserved as u128 + need;
    if reserved > u64::MAX as u128 {
        return None;
    }
    if let Some(capacity) = host.ledger.capacity {
        if host.ledger.used as u128 + reserved > capacity as u128 {
            return None;
        }
    }
    host.ledger.reserved = reserved as u64;
    Some(CopyReservation { primary, mirror })
}

/// The host once one copy was written, or could not be. What was set aside for
/// it is free again; a copy that was there before stays known.
pub open spec fn copy_settled(
    before: HostState,
    after: HostState,
    name: VolumeBlob,
    bytes: u64,
    reserved: u64,
    written: bool,
) -> bool {
    &&& after == (HostState {
        blobs: after.blobs,
        ledger: BlobLedger {
            reserved: (if before.ledger.reserved >= reserved {
                before.ledger.reserved - reserved
            } else {
                0
            }) as u64,
            used: if written {
                used_with(before.ledger.used, blob_size(before.blobs@, name), bytes) as u64
            } else {
                before.ledger.used
            },
            ..before.ledger
        },
        ..before
    })
    &&& after.blobs@ == (if written {
        with_blob(before.blobs@, name, bytes)
    } else {
        before.blobs@
    })
}

/// Takes note of how the write of one copy ended.
pub fn settle_copy(host: &mut HostState, name: VolumeBlob, bytes: u64, reserved: u64, written: bool)
    requires
        old(host).ledger.used + bytes <= u64::MAX,
    ensures
        copy_settled(*old(host), *final(host), name, bytes, reserved, written),
        follows(*old(host), *final(host)),
{
    host.ledger.reserved = host.ledger.reserved.saturating_sub(reserved);
    if written {
        record_blob(host, name, bytes);
    }
}

/// Takes note of how the writes of the two copies ended. A record is durable
/// only with both.
pub fn settle_record_copies(
    host: &mut HostState,
    volume: u64,
    fence: u64,
    seq: u64,
    bytes: u64,
    reservation: CopyReservation,
    primary_written: bool,
    mirror_written: bool,
) -> (durable: bool)
    requires
        old(host).ledger.used + bytes + bytes <= u64::MAX,
    ensures
        durable == (primary_written && mirror_written),
        exists|between: HostState| #[trigger]
            copy_settled(
                *old(host),
                between,
                record_name(volume, fence, seq, false),
                bytes,
                reservation.primary,
                primary_written,
            ) && copy_settled(
                between,
                *final(host),
                record_name(volume, fence, seq, true),
                bytes,
                reservation.mirror,
                mirror_written,
            ),
        follows(*old(host), *final(host)),
{
    settle_copy(
        host,
        name_record(volume, fence, seq, false),
        bytes,
        reservation.primary,
        primary_written,
    );
    let ghost between = *host;
    settle_copy(
        host,
        name_record(volume, fence, seq, true),
        bytes,
        reservation.mirror,
        mirror_written,
    );
    primary_written && mirror_written
}

/// Writes that fail give back exactly the room that was set aside for them.
pub proof fn failed_copies_free_their_room(
    before: HostState,
    reserved: HostState,
    between: HostState,
    after: HostState,
    volume: u64,
    fence: u64,
    seq: u64,
    bytes: u64,
)
    requires
        ({
            let wanted = copy_reservation(before.blobs@, volume, fence, seq, bytes);
            let need = wanted.primary + wanted.mirror;
            &&& copies_fit(before.ledger, need)
            &&& reserved == (HostState {
                ledger: BlobLedger {
                    reserved: (before.ledger.reserved + need) as u64,
                    ..before.ledger
                },
                ..before
            })
            &&& copy_settled(
                reserved,
                between,
                record_name(volume, fence, seq, false),
                bytes,
                wanted.primary,
                false,
            )
            &&& copy_settled(
                between,
                after,
                record_name(volume, fence, seq, true),
                bytes,
                wanted.mirror,
                false,
            )
        }),
    ensures
        after.ledger == before.ledger,
        after.blobs@ == before.blobs@,
{
}

/// A record that something still needs: the newest, the pinned one, and the one
/// the second keeper has confirmed.
pub open spec fn is_needed_record(state: VolumeState, seq: u64) -> bool {
    ||| state.best_record matches Some(record) && record.seq == seq
    ||| state.pinned matches Some(record) && record.seq == seq
    ||| state.peer_committed_record matches Some(record) && record.seq == seq
}

/// A local record that can go, with the fence it was written under.
#[derive(Clone, Copy, PartialEq, Eq, Debug, Structural)]
pub struct SupersededRecord {
    pub fence: u64,
    pub seq: u64,
}

fn has_seq(record: &Option<VolumeRecord>, seq: u64) -> (yes: bool)
    ensures
        yes == (record matches Some(r) && r.seq == seq),
{
    match record {
        Some(r) => r.seq == seq,
        None => false,
    }
}

/// The numbers of records that are not needed any more, of those given.
pub open spec fn superseded(state: VolumeState, seqs: Seq<u64>) -> Seq<SupersededRecord>
    decreases seqs.len(),
{
    if seqs.len() == 0 {
        Seq::empty()
    } else {
        let before = superseded(state, seqs.drop_last());
        let seq = seqs.last();
        if is_needed_record(state, seq) {
            before
        } else {
            before.push(SupersededRecord { fence: state.record_writes@[seq].0, seq })
        }
    }
}

/// The local records that can go, by number. Both copies of each go.
pub fn superseded_records(state: &VolumeState) -> (records: Vec<SupersededRecord>)
    ensures
        exists|seqs: Seq<u64>|
            lists_keys(seqs, state.record_writes@) && records@ == #[trigger] superseded(
                *state,
                seqs,
            ),
{
    let keys: Vec<u64> = sorted_keys(&state.record_writes);
    let mut records: Vec<SupersededRecord> = Vec::new();
    let mut i: usize = 0;
    while i < keys.len()
        invariant
            i <= keys@.len(),
            lists_keys(keys@, state.record_writes@),
            records@ == superseded(*state, keys@.take(i as int)),
        decreases keys@.len() - i,
    {
        let seq: u64 = keys[i];
        proof {
            assert(keys@.take(i + 1).drop_last() =~= keys@.take(i as int));
            assert(keys@.contains(keys@[i as int]));
        }
        if let Some(written) = state.record_writes.get(&seq) {
            if !has_seq(&state.best_record, seq) && !has_seq(&state.pinned, seq) && !has_seq(
                &state.peer_committed_record,
                seq,
            ) {
                records.push(SupersededRecord { fence: written.0, seq });
            }
        }
        i = i + 1;
    }
    proof {
        assert(keys@.take(i as int) =~= keys@);
    }
    records
}

/// A record that is needed never goes.
pub proof fn needed_records_stay(state: VolumeState, seqs: Seq<u64>, i: int)
    requires
        0 <= i < superseded(state, seqs).len(),
    ensures
        !is_needed_record(state, superseded(state, seqs)[i].seq),
    decreases seqs.len(),
{
    if seqs.len() > 0 {
        let before = superseded(state, seqs.drop_last());
        if i < before.len() {
            needed_records_stay(state, seqs.drop_last(), i);
        }
    }
}

// ---------------------------------------------------------------------------
// A full device
// ---------------------------------------------------------------------------

#[derive(Clone, Copy, PartialEq, Eq, Debug, Structural)]
pub enum BlobStep {
    Done,
    /// Wait this long, then try again.
    Wait(u64),
    Failed,
}

/// What follows an attempt to write or shorten a blob. A full device is waited
/// for; it gets room as files are given up.
pub fn blob_step(outcome: Result<(), BlobError>, writeback_interval: u64) -> (step: BlobStep)
    ensures
        step == (match outcome {
            Ok(_) => BlobStep::Done,
            Err(BlobError::Full) => BlobStep::Wait(
                if writeback_interval >= 1 {
                    writeback_interval
                } else {
                    1
                },
            ),
            Err(BlobError::Io) => BlobStep::Failed,
        }),
{
    match outcome {
        Ok(_) => BlobStep::Done,
        Err(BlobError::Full) => {
            if writeback_interval >= 1 {
                BlobStep::Wait(writeback_interval)
            } else {
                BlobStep::Wait(1)
            }
        },
        Err(BlobError::Io) => BlobStep::Failed,
    }
}

// ---------------------------------------------------------------------------
// Fences of volumes that arrive
// ---------------------------------------------------------------------------

/// The lowest fence that is `proposed` or above and above every fence under
/// which a blob of the volume is still there.
pub open spec fn inbound_fence(blobs: Seq<StoredBlob>, volume: u64, proposed: u64) -> int
    decreases blobs.len(),
{
    if blobs.len() == 0 {
        proposed as int
    } else {
        let before = inbound_fence(blobs.drop_last(), volume, proposed);
        let name = blobs.last().name;
        if name.volume == volume && name.fence >= before {
            name.fence + 1
        } else {
            before
        }
    }
}

/// A fence for a volume that arrives here. Its blobs must not be taken for what
/// an earlier stay left behind.
pub fn available_inbound_fence(host: &HostState, volume: u64, proposed: u64) -> (fence: Option<u64>)
    ensures
        fence == (if inbound_fence(host.blobs@, volume, proposed) <= u64::MAX {
            Some(inbound_fence(host.blobs@, volume, proposed) as u64)
        } else {
            None
        }),
{
    let mut fence: u128 = proposed as u128;
    let mut i: usize = 0;
    while i < host.blobs.len()
        invariant
            i <= host.blobs@.len(),
            fence <= u64::MAX + 1,
            fence == inbound_fence(host.blobs@.take(i as int), volume, proposed),
        decreases host.blobs@.len() - i,
    {
        proof {
            assert(host.blobs@.take(i + 1).drop_last() =~= host.blobs@.take(i as int));
        }
        let name: VolumeBlob = host.blobs[i].name;
        if name.volume == volume && name.fence as u128 >= fence {
            fence = name.fence as u128 + 1;
        }
        i = i + 1;
    }
    proof {
        assert(host.blobs@.take(i as int) =~= host.blobs@);
    }
    if fence <= u64::MAX as u128 {
        Some(fence as u64)
    } else {
        None
    }
}

/// The fence of a volume that arrives is above every fence its blobs carry.
pub proof fn arriving_volumes_are_fenced_off(
    blobs: Seq<StoredBlob>,
    volume: u64,
    proposed: u64,
    i: int,
)
    requires
        0 <= i < blobs.len(),
        blobs[i].name.volume == volume,
    ensures
        inbound_fence(blobs, volume, proposed) > blobs[i].name.fence,
        inbound_fence(blobs, volume, proposed) >= proposed,
    decreases blobs.len(),
{
    lemma_at_least_proposed(blobs.drop_last(), volume, proposed);
    if i < blobs.len() - 1 {
        arriving_volumes_are_fenced_off(blobs.drop_last(), volume, proposed, i);
    }
}

proof fn lemma_at_least_proposed(blobs: Seq<StoredBlob>, volume: u64, proposed: u64)
    ensures
        inbound_fence(blobs, volume, proposed) >= proposed,
    decreases blobs.len(),
{
    if blobs.len() > 0 {
        lemma_at_least_proposed(blobs.drop_last(), volume, proposed);
    }
}

} // verus!
