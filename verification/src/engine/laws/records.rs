//! What the ledger of local blobs is for: it knows each blob's newest size, and
//! room that was promised is there.

use super::super::records::{
    blob_size, copies_fit, copy_reservation, copy_settled, growth, inbound_fence, place_of,
    record_name, superseded, used_with, with_blob, SupersededRecord,
};
use super::super::state::{BlobLedger, HostState, StoredBlob, VolumeBlob, VolumeBlobKind};
use super::super::volume::VolumeState;
use vstd::prelude::*;

verus! {

proof fn lemma_place(blobs: Seq<StoredBlob>, name: VolumeBlob, from: int)
    requires
        0 <= from <= blobs.len(),
    ensures
        from <= place_of(blobs, name, from) <= blobs.len(),
        place_of(blobs, name, from) < blobs.len() ==> blobs[place_of(blobs, name, from)].name
            == name,
        forall|i: int|
            from <= i < place_of(blobs, name, from) ==> (#[trigger] blobs[i]).name != name,
    decreases blobs.len() - from,
{
    if from < blobs.len() && blobs[from].name != name {
        lemma_place(blobs, name, from + 1);
    }
}

/// The size of a blob is that of the first of its name.
pub proof fn a_blob_is_known_by_its_name(blobs: Seq<StoredBlob>, name: VolumeBlob, i: int)
    ensures
        (forall|j: int| 0 <= j < blobs.len() ==> (#[trigger] blobs[j]).name != name) ==> blob_size(
            blobs,
            name,
        ) is None,
        0 <= i < blobs.len() && blobs[i].name == name && (forall|j: int|
            0 <= j < i ==> (#[trigger] blobs[j]).name != name) ==> blob_size(blobs, name) == Some(
            blobs[i].bytes,
        ),
{
    lemma_place(blobs, name, 0);
    let at = place_of(blobs, name, 0);
    if at < blobs.len() {
        assert(blobs[at].name == name);
    }
}

/// A blob that is written has its new size from then on, and every other blob the
/// size it had.
pub proof fn a_written_blob_has_its_new_size(
    blobs: Seq<StoredBlob>,
    name: VolumeBlob,
    bytes: u64,
    other: VolumeBlob,
)
    requires
        other != name,
    ensures
        blob_size(with_blob(blobs, name, bytes), name) == Some(bytes),
        blob_size(with_blob(blobs, name, bytes), other) == blob_size(blobs, other),
{
    let after = with_blob(blobs, name, bytes);
    let at = place_of(blobs, name, 0);
    let seen = place_of(blobs, other, 0);
    lemma_place(blobs, name, 0);
    lemma_place(blobs, other, 0);
    lemma_place(after, name, 0);
    lemma_place(after, other, 0);
    assert(after[at] == StoredBlob { name, bytes });
    let now = place_of(after, name, 0);
    if now < at {
        assert(after[now] == blobs[now]);
        assert(blobs[now].name == name);
    }
    let there = place_of(after, other, 0);
    if seen < blobs.len() {
        assert(after[seen] == blobs[seen]);
        if there < seen {
            assert(after[there].name == other);
            if there != at {
                assert(blobs[there].name == other);
            }
        }
        if there > seen {
            assert(after[seen].name != other);
        }
    } else if there < after.len() {
        assert(after[there].name == other);
        if there != at {
            assert(blobs[there].name == other);
        }
    }
}

/// Writing a blob needs room for what it grows by, and its old size is freed.
pub proof fn a_blob_needs_room_for_its_growth(
    blobs: Seq<StoredBlob>,
    name: VolumeBlob,
    bytes: u64,
    used: u64,
)
    ensures
        match blob_size(blobs, name) {
            Some(old_size) => {
                &&& bytes >= old_size ==> growth(blobs, name, bytes) == bytes - old_size
                &&& bytes < old_size ==> growth(blobs, name, bytes) == 0
                &&& used >= old_size ==> used_with(used, Some(old_size), bytes) == used - old_size
                    + bytes
                &&& used < old_size ==> used_with(used, Some(old_size), bytes) == bytes
            },
            None => growth(blobs, name, bytes) == bytes && used_with(used, None, bytes) == used
                + bytes,
        },
{
}

/// A record is kept twice, under two names, and room is needed for both.
pub proof fn a_record_is_kept_twice(
    blobs: Seq<StoredBlob>,
    volume: u64,
    fence: u64,
    seq: u64,
    bytes: u64,
    ledger: BlobLedger,
    need: int,
)
    ensures
        record_name(volume, fence, seq, false) != record_name(volume, fence, seq, true),
        ({
            let name = record_name(volume, fence, seq, false);
            let mirror = record_name(volume, fence, seq, true);
            &&& name.kind == VolumeBlobKind::Record
            &&& mirror.kind == VolumeBlobKind::RecordMirror
            &&& name.volume == volume && mirror.volume == volume
            &&& name.fence == fence && mirror.fence == fence
            &&& name.number == seq && mirror.number == seq
            &&& copy_reservation(blobs, volume, fence, seq, bytes).primary == growth(
                blobs,
                name,
                bytes,
            )
            &&& copy_reservation(blobs, volume, fence, seq, bytes).mirror == growth(
                blobs,
                mirror,
                bytes,
            )
        }),
        copies_fit(ledger, need) <==> ledger.reserved + need <= u64::MAX && match ledger.capacity {
            Some(capacity) => ledger.used + ledger.reserved + need <= capacity,
            None => true,
        },
{
}

/// Once a copy was written or failed its reservation is over. A written one has its
/// size and takes its room; a failed one leaves everything as it was.
pub proof fn a_settled_copy_takes_its_room(
    before: HostState,
    after: HostState,
    name: VolumeBlob,
    bytes: u64,
    reserved: u64,
    written: bool,
    other: VolumeBlob,
)
    requires
        copy_settled(before, after, name, bytes, reserved, written),
        reserved <= before.ledger.reserved,
        before.ledger.used + bytes <= u64::MAX,
        other != name,
    ensures
        after.ledger.reserved == before.ledger.reserved - reserved,
        written ==> blob_size(after.blobs@, name) == Some(bytes),
        blob_size(after.blobs@, other) == blob_size(before.blobs@, other),
        !written ==> after.blobs@ == before.blobs@ && after.ledger.used == before.ledger.used,
        written && blob_size(before.blobs@, name) is None ==> after.ledger.used
            == before.ledger.used + bytes,
        written && blob_size(before.blobs@, name) is Some && blob_size(before.blobs@, name)->0
            <= before.ledger.used ==> after.ledger.used == before.ledger.used - blob_size(
            before.blobs@,
            name,
        )->0 + bytes,
        after.ledger.capacity == before.ledger.capacity,
        after.ledger.headroom == before.ledger.headroom,
        after.volumes == before.volumes,
{
    a_written_blob_has_its_new_size(before.blobs@, name, bytes, other);
}

/// The records that go are those that are neither the newest, nor pinned, nor the
/// one the peer has: each of them, under the fence it was written under.
pub proof fn every_superseded_record_goes(state: VolumeState, seqs: Seq<u64>, record: SupersededRecord)
    ensures
        superseded(state, seqs).contains(record) <==> {
            &&& seqs.contains(record.seq)
            &&& record.fence == state.record_writes@[record.seq].0
            &&& !(state.best_record is Some && state.best_record->0.seq == record.seq)
            &&& !(state.pinned is Some && state.pinned->0.seq == record.seq)
            &&& !(state.peer_committed_record is Some && state.peer_committed_record->0.seq
                == record.seq)
        },
    decreases seqs.len(),
{
    if seqs.len() > 0 {
        let front = seqs.drop_last();
        let end = seqs.len() - 1;
        every_superseded_record_goes(state, front, record);
        let rest = superseded(state, front);
        let last = seqs.last();
        let new = SupersededRecord { fence: state.record_writes@[last].0, seq: last };
        let longer = rest.push(new);
        assert(seqs[end] == last);
        assert(seqs.contains(record.seq) <==> front.contains(record.seq) || record.seq == last) by {
            if front.contains(record.seq) {
                let i = choose|i: int| 0 <= i < front.len() && front[i] == record.seq;
                assert(seqs[i] == record.seq);
            }
            if seqs.contains(record.seq) && record.seq != last {
                let i = choose|i: int| 0 <= i < seqs.len() && seqs[i] == record.seq;
                assert(front[i] == record.seq);
            }
        }
        assert(longer.contains(record) <==> rest.contains(record) || record == new) by {
            assert(longer[rest.len() as int] == new);
            if rest.contains(record) {
                let i = choose|i: int| 0 <= i < rest.len() && rest[i] == record;
                assert(longer[i] == record);
            }
            if longer.contains(record) && record != new {
                let i = choose|i: int| 0 <= i < longer.len() && longer[i] == record;
                assert(rest[i] == record);
            }
        }
    }
}

/// An arriving volume's fence is the proposed one, or just above one that was used
/// for it here.
pub proof fn an_arriving_volume_gets_the_lowest_free_fence(
    blobs: Seq<StoredBlob>,
    volume: u64,
    proposed: u64,
)
    ensures
        inbound_fence(blobs, volume, proposed) == proposed || exists|i: int|
            0 <= i < blobs.len() && (#[trigger] blobs[i]).name.volume == volume
                && blobs[i].name.fence + 1 == inbound_fence(blobs, volume, proposed),
        forall|i: int|
            0 <= i < blobs.len() && (#[trigger] blobs[i]).name.volume == volume
                ==> blobs[i].name.fence < inbound_fence(blobs, volume, proposed),
        proposed <= inbound_fence(blobs, volume, proposed),
    decreases blobs.len(),
{
    if blobs.len() > 0 {
        let front = blobs.drop_last();
        let end = blobs.len() - 1;
        an_arriving_volume_gets_the_lowest_free_fence(front, volume, proposed);
        let rest = inbound_fence(front, volume, proposed);
        assert(blobs[end] == blobs.last());
        assert forall|i: int|
            0 <= i < blobs.len() && (#[trigger] blobs[i]).name.volume == volume implies
            blobs[i].name.fence < inbound_fence(blobs, volume, proposed) by {
            if i < end {
                assert(front[i] == blobs[i]);
            }
        }
        if rest != proposed {
            let i = choose|i: int|
                0 <= i < front.len() && (#[trigger] front[i]).name.volume == volume
                    && front[i].name.fence + 1 == rest;
            assert(blobs[i].name.volume == volume);
        }
    }
}

} // verus!
