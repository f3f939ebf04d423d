//! Immutable archive objects: how they are named, what keys they cover, and
//! which of several copies of a block counts.

use vstd::prelude::*;

verus! {

/// Which part of a volume's state a block belongs to.
#[derive(Clone, Copy, PartialEq, Eq, PartialOrd, Ord, Hash, Debug, Structural)]
pub enum BlockSpace {
    Data,
    Memory,
    /// Device state of the virtual machine monitor.
    Vmm,
}

#[derive(Clone, Copy, PartialEq, Eq, PartialOrd, Ord, Hash, Debug, Structural)]
pub struct BlockKey {
    pub space: BlockSpace,
    pub block: u32,
}

impl BlockSpace {
    pub open spec fn rank_spec(self) -> u64 {
        match self {
            BlockSpace::Data => 0,
            BlockSpace::Memory => 1,
            BlockSpace::Vmm => 2,
        }
    }

    /// Position among the spaces.
    #[verifier::when_used_as_spec(rank_spec)]
    pub fn rank(self) -> (rank: u64)
        ensures
            rank == self.rank_spec(),
    {
        match self {
            BlockSpace::Data => 0,
            BlockSpace::Memory => 1,
            BlockSpace::Vmm => 2,
        }
    }
}

impl BlockKey {
    pub open spec fn code_spec(self) -> u64 {
        (self.space.rank() * 0x1_0000_0000 + self.block) as u64
    }

    /// A number that orders keys: by space, then by block.
    #[verifier::when_used_as_spec(code_spec)]
    pub fn code(self) -> (code: u64)
        ensures
            code == self.code_spec(),
            code == self.space.rank() * 0x1_0000_0000 + self.block,
    {
        self.space.rank() * 0x1_0000_0000 + self.block as u64
    }

    pub open spec fn file_partition_spec(self) -> u64 {
        self.space.rank()
    }

    /// Files never mix spaces.
    #[verifier::when_used_as_spec(file_partition_spec)]
    pub fn file_partition(self) -> (partition: u64)
        ensures
            partition == self.file_partition_spec(),
    {
        self.space.rank()
    }
}

/// Different keys have different codes.
pub proof fn block_codes_are_distinct(a: BlockKey, b: BlockKey)
    requires
        a.code() == b.code(),
    ensures
        a == b,
{
    assert(a.code() == a.space.rank() * 0x1_0000_0000 + a.block);
    assert(b.code() == b.space.rank() * 0x1_0000_0000 + b.block);
    assert(a.space.rank() == b.space.rank() && a.block == b.block);
}

/// Whose objects share a name space.
#[derive(Clone, Copy, PartialEq, Eq, PartialOrd, Ord, Hash, Debug, Structural)]
pub enum NamespaceKind {
    Volume,
    ImportedBase,
}

impl NamespaceKind {
    pub open spec fn rank_spec(self) -> u64 {
        match self {
            NamespaceKind::Volume => 0,
            NamespaceKind::ImportedBase => 1,
        }
    }

    #[verifier::when_used_as_spec(rank_spec)]
    pub fn rank(self) -> (rank: u64)
        ensures
            rank == self.rank_spec(),
    {
        match self {
            NamespaceKind::Volume => 0,
            NamespaceKind::ImportedBase => 1,
        }
    }
}

/// The name of an archive object.
#[derive(Clone, Copy, PartialEq, Eq, PartialOrd, Ord, Hash, Debug, Structural)]
pub struct ObjectIdentity {
    pub namespace_kind: NamespaceKind,
    pub namespace_id: u64,
    pub writer_fence: u64,
    pub object_id: u64,
}

impl ObjectIdentity {
    /// The order of names: field by field.
    pub open spec fn before_spec(self, other: ObjectIdentity) -> bool {
        if self.namespace_kind.rank() != other.namespace_kind.rank() {
            self.namespace_kind.rank() < other.namespace_kind.rank()
        } else if self.namespace_id != other.namespace_id {
            self.namespace_id < other.namespace_id
        } else if self.writer_fence != other.writer_fence {
            self.writer_fence < other.writer_fence
        } else {
            self.object_id < other.object_id
        }
    }

    #[verifier::when_used_as_spec(before_spec)]
    pub fn before(self, other: ObjectIdentity) -> (less: bool)
        ensures
            less == self.before_spec(other),
    {
        if self.namespace_kind.rank() != other.namespace_kind.rank() {
            self.namespace_kind.rank() < other.namespace_kind.rank()
        } else if self.namespace_id != other.namespace_id {
            self.namespace_id < other.namespace_id
        } else if self.writer_fence != other.writer_fence {
            self.writer_fence < other.writer_fence
        } else {
            self.object_id < other.object_id
        }
    }

    pub open spec fn of_volume_spec(self, volume: u64) -> bool {
        self.namespace_kind == NamespaceKind::Volume && self.namespace_id == volume
    }

    /// Whether the object was written for `volume` itself.
    #[verifier::when_used_as_spec(of_volume_spec)]
    pub fn of_volume(self, volume: u64) -> (own: bool)
        ensures
            own == self.of_volume_spec(volume),
    {
        match self.namespace_kind {
            NamespaceKind::Volume => self.namespace_id == volume,
            NamespaceKind::ImportedBase => false,
        }
    }

    pub open spec fn volume_spec(volume: u64, writer_fence: u64, object_id: u64) -> ObjectIdentity {
        ObjectIdentity {
            namespace_kind: NamespaceKind::Volume,
            namespace_id: volume,
            writer_fence,
            object_id,
        }
    }

    #[verifier::when_used_as_spec(volume_spec)]
    pub fn volume(volume: u64, writer_fence: u64, object_id: u64) -> (identity: ObjectIdentity)
        ensures
            identity == Self::volume_spec(volume, writer_fence, object_id),
    {
        ObjectIdentity {
            namespace_kind: NamespaceKind::Volume,
            namespace_id: volume,
            writer_fence,
            object_id,
        }
    }
}

/// Names are totally ordered.
pub proof fn lemma_identity_order(a: ObjectIdentity, b: ObjectIdentity, c: ObjectIdentity)
    ensures
        !a.before(a),
        a.before(b) ==> !b.before(a),
        a.before(b) && b.before(c) ==> a.before(c),
        a != b ==> a.before(b) || b.before(a),
{
}

/// A reference to an archive object.
#[derive(Clone, Copy, PartialEq, Eq, Hash, Debug, Structural)]
pub struct ObjectRef {
    pub identity: ObjectIdentity,
    pub first_key: BlockKey,
    pub last_key: BlockKey,
    /// Newest journal record whose blocks the object holds.
    pub max_seq: u64,
    /// Objects written together share a number.
    pub batch_id: u64,
    pub object_checksum: u64,
    pub footer_offset: u32,
    pub footer_length: u32,
}

impl ObjectRef {
    pub open spec fn covers_spec(&self, key: BlockKey) -> bool {
        self.first_key.code() <= key.code() <= self.last_key.code()
    }

    /// Whether the object's key range has `key` in it.
    #[verifier::when_used_as_spec(covers_spec)]
    pub fn covers(&self, key: BlockKey) -> (inside: bool)
        ensures
            inside == self.covers_spec(key),
    {
        self.first_key.code() <= key.code() && key.code() <= self.last_key.code()
    }
}

// ---------------------------------------------------------------------------
// Lists of objects
// ---------------------------------------------------------------------------

/// Each object once, in the order of names.
pub open spec fn sorted(objects: Seq<ObjectRef>) -> bool {
    forall|i: int, j: int|
        0 <= i < j < objects.len() ==> objects[i].identity.before(objects[j].identity)
}

/// An object of this name is in the list.
pub open spec fn lists(objects: Seq<ObjectRef>, identity: ObjectIdentity) -> bool {
    exists|i: int| 0 <= i < objects.len() && #[trigger] objects[i].identity == identity
}

/// Whether an object of this name is in the list.
pub fn contains_identity(objects: &Vec<ObjectRef>, identity: ObjectIdentity) -> (found: bool)
    ensures
        found == lists(objects@, identity),
{
    let mut i: usize = 0;
    while i < objects.len()
        invariant
            i <= objects@.len(),
            forall|a: int| 0 <= a < i ==> (#[trigger] objects@[a]).identity != identity,
        decreases objects@.len() - i,
    {
        if objects[i].identity == identity {
            return true;
        }
        i = i + 1;
    }
    false
}

/// `after` is `before` with `object` put in its place, over another object of
/// its name if there is one.
pub open spec fn placed(before: Seq<ObjectRef>, after: Seq<ObjectRef>, object: ObjectRef) -> bool {
    &&& sorted(after)
    &&& forall|o: ObjectRef| #[trigger]
        after.contains(o) <==> o == object || (before.contains(o) && o.identity != object.identity)
}

/// Puts `object` in its place in a sorted list.
pub fn place_object(objects: &mut Vec<ObjectRef>, object: ObjectRef)
    requires
        sorted(old(objects)@),
    ensures
        placed(old(objects)@, final(objects)@, object),
{
    let ghost before = objects@;
    let mut at: usize = 0;
    while at < objects.len() && objects[at].identity.before(object.identity)
        invariant
            at <= objects@.len(),
            objects@ == before,
            forall|a: int|
                0 <= a < at ==> (#[trigger] objects@[a]).identity.before(object.identity),
        decreases objects@.len() - at,
    {
        at = at + 1;
    }
    if at < objects.len() && objects[at].identity == object.identity {
        objects.set(at, object);
        proof {
            assert forall|o: ObjectRef| #[trigger] objects@.contains(o) <==> o == object || (
            before.contains(o) && o.identity != object.identity) by {
                if objects@.contains(o) && o != object {
                    let i = choose|i: int| 0 <= i < objects@.len() && objects@[i] == o;
                    assert(before[i] == o);
                    if i < at {
                        assert(before[i].identity.before(before[at as int].identity));
                    } else {
                        assert(before[at as int].identity.before(before[i].identity));
                    }
                }
                if before.contains(o) && o.identity != object.identity {
                    let i = choose|i: int| 0 <= i < before.len() && before[i] == o;
                    assert(objects@[i] == o);
                }
                assert(objects@[at as int] == object);
            }
        }
    } else {
        objects.insert(at, object);
        proof {
            let now = objects@;
            assert(now =~= before.insert(at as int, object));
            assert forall|i: int, j: int|
                0 <= i < j < now.len() implies now[i].identity.before(now[j].identity) by {
                if j < at {
                    assert(before[i].identity.before(before[j].identity));
                } else if i > at {
                    assert(before[i - 1].identity.before(before[j - 1].identity));
                } else if j == at {
                    assert(before[i].identity.before(object.identity));
                } else {
                    // `object` goes right before `before[at]`.
                    assert(!before[at as int].identity.before(object.identity));
                    assert(object.identity.before(before[at as int].identity));
                    if j - 1 > at {
                        assert(before[at as int].identity.before(before[j - 1].identity));
                    }
                    if i < at {
                        assert(before[i].identity.before(object.identity));
                    }
                }
            }
            assert forall|o: ObjectRef| #[trigger] now.contains(o) <==> o == object || (
            before.contains(o) && o.identity != object.identity) by {
                if now.contains(o) && o != object {
                    let i = choose|i: int| 0 <= i < now.len() && now[i] == o;
                    let k = if i < at {
                        i
                    } else {
                        i - 1
                    };
                    assert(before[k] == o);
                    if k < at {
                        assert(before[k].identity.before(object.identity));
                    } else {
                        assert(object.identity.before(before[at as int].identity));
                        if k > at {
                            assert(before[at as int].identity.before(before[k].identity));
                        }
                    }
                }
                if before.contains(o) {
                    let i = choose|i: int| 0 <= i < before.len() && before[i] == o;
                    if i < at {
                        assert(now[i] == o);
                    } else {
                        assert(now[i + 1] == o);
                    }
                }
                assert(now[at as int] == object);
            }
        }
    }
}

/// How many of `objects` have `key` in their range.
pub open spec fn cover_count(objects: Seq<ObjectRef>, key: BlockKey) -> nat
    decreases objects.len(),
{
    if objects.len() == 0 {
        0
    } else {
        cover_count(objects.drop_last(), key) + if objects.last().covers(key) {
            1nat
        } else {
            0
        }
    }
}

fn count_covering(objects: &Vec<ObjectRef>, key: BlockKey) -> (count: usize)
    ensures
        count == cover_count(objects@, key),
        count <= objects@.len(),
{
    let mut count: usize = 0;
    let mut i: usize = 0;
    while i < objects.len()
        invariant
            i <= objects@.len(),
            count <= i,
            count == cover_count(objects@.take(i as int), key),
        decreases objects@.len() - i,
    {
        proof {
            assert(objects@.take(i + 1).drop_last() =~= objects@.take(i as int));
        }
        if objects[i].covers(key) {
            count = count + 1;
        }
        i = i + 1;
    }
    proof {
        assert(objects@.take(i as int) =~= objects@);
    }
    count
}

/// The largest number of objects that share a key. It is reached at some
/// object's first key, if there is any object.
pub fn maximum_overlap(objects: &Vec<ObjectRef>) -> (overlap: usize)
    ensures
        forall|i: int|
            0 <= i < objects@.len() ==> cover_count(objects@, (#[trigger] objects@[i]).first_key)
                <= overlap,
        objects@.len() == 0 ==> overlap == 0,
        objects@.len() > 0 ==> exists|i: int|
            0 <= i < objects@.len() && cover_count(
                objects@,
                (#[trigger] objects@[i]).first_key,
            ) == overlap,
{
    let mut overlap: usize = 0;
    let mut i: usize = 0;
    while i < objects.len()
        invariant
            i <= objects@.len(),
            forall|a: int|
                0 <= a < i ==> cover_count(objects@, (#[trigger] objects@[a]).first_key)
                    <= overlap,
            i == 0 ==> overlap == 0,
            i > 0 ==> exists|a: int|
                0 <= a < i && cover_count(objects@, (#[trigger] objects@[a]).first_key)
                    == overlap,
        decreases objects@.len() - i,
    {
        let count: usize = count_covering(objects, objects[i].first_key);
        if count > overlap || i == 0 {
            overlap = count;
        } else {
            assert(exists|a: int|
                0 <= a < i + 1 && cover_count(objects@, (#[trigger] objects@[a]).first_key)
                    == overlap) by {
                let a = choose|a: int|
                    0 <= a < i && cover_count(objects@, (#[trigger] objects@[a]).first_key)
                        == overlap;
            }
        }
        i = i + 1;
    }
    overlap
}

/// No key is covered by more objects than the overlap says: looking at first
/// keys is enough.
pub proof fn overlap_bounds_every_key(objects: Seq<ObjectRef>, overlap: nat, key: BlockKey)
    requires
        forall|i: int|
            0 <= i < objects.len() ==> cover_count(objects, (#[trigger] objects[i]).first_key)
                <= overlap,
    ensures
        cover_count(objects, key) <= overlap,
{
    if cover_count(objects, key) > 0 {
        let top = lemma_latest_start(objects, key);
        lemma_cover_shift(objects, objects, key, top);
    }
}

/// Among the objects that cover `key`, one that starts last.
proof fn lemma_latest_start(objects: Seq<ObjectRef>, key: BlockKey) -> (top: int)
    requires
        cover_count(objects, key) > 0,
    ensures
        0 <= top < objects.len(),
        objects[top].covers(key),
        forall|i: int|
            0 <= i < objects.len() && (#[trigger] objects[i]).covers(key)
                ==> objects[i].first_key.code() <= objects[top].first_key.code(),
    decreases objects.len(),
{
    let front = objects.drop_last();
    let last = objects.len() - 1;
    if cover_count(front, key) == 0 {
        lemma_none_cover(front, key);
        assert forall|i: int|
            0 <= i < objects.len() && (#[trigger] objects[i]).covers(key) implies
            objects[i].first_key.code() <= objects[last].first_key.code() by {
            if i < last {
                assert(!front[i].covers(key));
            }
        }
        last
    } else {
        let best = lemma_latest_start(front, key);
        let top = if objects[last].covers(key) && objects[last].first_key.code()
            > objects[best].first_key.code() {
            last
        } else {
            best
        };
        assert forall|i: int|
            0 <= i < objects.len() && (#[trigger] objects[i]).covers(key) implies
            objects[i].first_key.code() <= objects[top].first_key.code() by {
            if i < last {
                assert(front[i].covers(key));
            }
        }
        top
    }
}

proof fn lemma_none_cover(objects: Seq<ObjectRef>, key: BlockKey)
    requires
        cover_count(objects, key) == 0,
    ensures
        forall|i: int| 0 <= i < objects.len() ==> !(#[trigger] objects[i]).covers(key),
    decreases objects.len(),
{
    if objects.len() > 0 {
        let front = objects.drop_last();
        lemma_none_cover(front, key);
        assert forall|i: int| 0 <= i < objects.len() implies !(#[trigger] objects[i]).covers(
            key,
        ) by {
            if i < objects.len() - 1 {
                assert(!front[i].covers(key));
            }
        }
    }
}

/// Objects that cover `key` also cover the latest first key among them.
proof fn lemma_cover_shift(all: Seq<ObjectRef>, part: Seq<ObjectRef>, key: BlockKey, top: int)
    requires
        0 <= top < all.len(),
        all[top].covers(key),
        forall|i: int|
            0 <= i < part.len() && (#[trigger] part[i]).covers(key) ==> part[i].first_key.code()
                <= all[top].first_key.code(),
    ensures
        cover_count(part, key) <= cover_count(part, all[top].first_key),
    decreases part.len(),
{
    if part.len() > 0 {
        let front = part.drop_last();
        assert forall|i: int| 0 <= i < front.len() && (#[trigger] front[i]).covers(key) implies
            front[i].first_key.code() <= all[top].first_key.code() by {
            assert(part[i].covers(key));
        }
        lemma_cover_shift(all, front, key, top);
        if part.last().covers(key) {
            assert(part[part.len() - 1].covers(key));
        }
    }
}

// ---------------------------------------------------------------------------
// Footers
// ---------------------------------------------------------------------------

#[derive(Clone, Copy, PartialEq, Eq, Hash, Debug, Structural)]
pub enum EntryKind {
    Data,
    Tombstone,
}

/// One block inside an archive object.
#[derive(Clone, Copy, PartialEq, Eq, Hash, Debug, Structural)]
pub struct FooterEntry {
    pub key: BlockKey,
    pub generation: u64,
    pub kind: EntryKind,
    pub offset: u32,
    pub length: u32,
    /// What the block adds to the checksum of the volume's state.
    pub contribution: u64,
}

/// The index of an archive object.
pub struct BlxFooter {
    pub entries: Vec<FooterEntry>,
}

impl BlxFooter {
    /// The footer is the one that `object` refers to: it starts and ends where
    /// the object does, and every block lies in front of it.
    pub open spec fn belongs_to(self, object: ObjectRef) -> bool {
        &&& self.entries@.len() > 0
        &&& self.entries@[0].key == object.first_key
        &&& self.entries@.last().key == object.last_key
        &&& forall|i: int|
            0 <= i < self.entries@.len() ==> (#[trigger] self.entries@[i]).offset
                + self.entries@[i].length <= object.footer_offset
    }

    pub fn verify(&self, object: &ObjectRef) -> (valid: bool)
        ensures
            valid == self.belongs_to(*object),
    {
        let count: usize = self.entries.len();
        if count == 0 {
            return false;
        }
        if self.entries[0].key != object.first_key {
            return false;
        }
        if self.entries[count - 1].key != object.last_key {
            return false;
        }
        let mut i: usize = 0;
        while i < count
            invariant
                i <= count,
                count == self.entries@.len(),
                forall|a: int|
                    0 <= a < i ==> (#[trigger] self.entries@[a]).offset + self.entries@[a].length
                        <= object.footer_offset,
            decreases count - i,
        {
            let end: u64 = self.entries[i].offset as u64 + self.entries[i].length as u64;
            if end > object.footer_offset as u64 {
                return false;
            }
            i = i + 1;
        }
        true
    }

    /// The first entry for `key`.
    pub open spec fn entry_for(self, key: BlockKey) -> Option<FooterEntry> {
        if exists|i: int| self.first_at(key, i) {
            Some(self.entries@[choose|i: int| self.first_at(key, i)])
        } else {
            None
        }
    }

    pub open spec fn first_at(self, key: BlockKey, i: int) -> bool {
        &&& 0 <= i < self.entries@.len()
        &&& self.entries@[i].key == key
        &&& forall|a: int| 0 <= a < i ==> (#[trigger] self.entries@[a]).key != key
    }

    pub fn find(&self, key: BlockKey) -> (entry: Option<FooterEntry>)
        ensures
            entry == self.entry_for(key),
            entry matches Some(e) ==> e.key == key && self.entries@.contains(e),
            entry is None ==> forall|i: int|
                0 <= i < self.entries@.len() ==> (#[trigger] self.entries@[i]).key != key,
    {
        let mut i: usize = 0;
        while i < self.entries.len()
            invariant
                i <= self.entries@.len(),
                forall|a: int| 0 <= a < i ==> (#[trigger] self.entries@[a]).key != key,
            decreases self.entries@.len() - i,
        {
            if self.entries[i].key == key {
                proof {
                    assert(self.first_at(key, i as int));
                    let other = choose|k: int| self.first_at(key, k);
                    assert(other == i) by {
                        if other < i {
                            assert(self.entries@[other].key != key);
                        }
                        if i < other {
                            assert(self.entries@[i as int].key != key);
                        }
                    }
                }
                return Some(self.entries[i]);
            }
            i = i + 1;
        }
        None
    }
}

/// A copy of a block, and the object it lies in.
#[derive(Clone, Copy, PartialEq, Eq, Hash, Debug, Structural)]
pub struct BlockCopy {
    pub entry: FooterEntry,
    pub own: bool,
    pub object: ObjectRef,
}

impl BlockCopy {
    pub open spec fn newer_spec(self, other: BlockCopy) -> bool {
        if self.entry.generation != other.entry.generation {
            self.entry.generation > other.entry.generation
        } else if self.own != other.own {
            self.own
        } else {
            other.object.identity.before(self.object.identity)
        }
    }

    /// Whether this copy counts over `other`: by generation, then a volume's
    /// own copy over an inherited one, then by name.
    #[verifier::when_used_as_spec(newer_spec)]
    pub fn newer(self, other: BlockCopy) -> (wins: bool)
        ensures
            wins == self.newer_spec(other),
    {
        if self.entry.generation != other.entry.generation {
            self.entry.generation > other.entry.generation
        } else if self.own != other.own {
            self.own
        } else {
            other.object.identity.before(self.object.identity)
        }
    }
}

} // verus!
