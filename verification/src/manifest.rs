//! Archived states of a volume: which files they consist of.

use crate::engine::volume::{BaseRef, VolumeConfig, VolumeRecordKind};
use crate::objects::{contains_identity, lists, place_object, sorted, ObjectIdentity, ObjectRef};
use vstd::prelude::*;

verus! {

/// A list of all files of an archived state.
#[derive(Clone, Copy, PartialEq, Eq, Hash, Debug, Structural)]
pub struct ListRef {
    pub writer_fence: u64,
    pub list_id: u64,
}

pub struct CompleteFileList {
    pub volume: u64,
    pub writer_fence: u64,
    pub list_id: u64,
    pub objects: Vec<ObjectRef>,
}

impl CompleteFileList {
    pub open spec fn reference_spec(&self) -> ListRef {
        ListRef { writer_fence: self.writer_fence, list_id: self.list_id }
    }

    #[verifier::when_used_as_spec(reference_spec)]
    pub fn reference(&self) -> (reference: ListRef)
        ensures
            reference == self.reference_spec(),
    {
        ListRef { writer_fence: self.writer_fence, list_id: self.list_id }
    }
}

/// An archived state of a volume. Its files are those of a complete list, less
/// some and more others.
pub struct Manifest {
    pub volume: u64,
    pub writer_fence: u64,
    pub journal_seq: u64,
    pub archive_seq: u64,
    pub capture_seq: u64,
    pub sync_covered_through: u64,
    pub kind: VolumeRecordKind,
    pub config: VolumeConfig,
    pub base: Option<BaseRef>,
    pub complete_list: Option<ListRef>,
    pub post_state_checksum: u64,
    pub metadata_checksum: u64,
    pub added: Vec<ObjectRef>,
    pub removed: Vec<ObjectIdentity>,
}

/// How a list of files differs from another.
pub struct FileDelta {
    pub added: Vec<ObjectRef>,
    pub removed: Vec<ObjectIdentity>,
}

/// The files of `current` whose names `baseline` does not list.
pub open spec fn added_files(baseline: Seq<ObjectRef>, current: Seq<ObjectRef>) -> Seq<ObjectRef> {
    current.filter(|o: ObjectRef| !lists(baseline, o.identity))
}

/// The names `baseline` lists and `current` does not.
pub open spec fn removed_names(baseline: Seq<ObjectRef>, current: Seq<ObjectRef>) -> Seq<
    ObjectIdentity,
> {
    baseline.filter(|o: ObjectRef| !lists(current, o.identity)).map_values(
        |o: ObjectRef| o.identity,
    )
}

fn files_missing_in(listed: &Vec<ObjectRef>, other: &Vec<ObjectRef>) -> (missing: Vec<ObjectRef>)
    ensures
        missing@ == added_files(other@, listed@),
{
    let mut missing: Vec<ObjectRef> = Vec::new();
    let mut i: usize = 0;
    proof {
        reveal(Seq::filter);
        assert(listed@.take(0) =~= Seq::<ObjectRef>::empty());
    }
    while i < listed.len()
        invariant
            i <= listed@.len(),
            missing@ == added_files(other@, listed@.take(i as int)),
        decreases listed@.len() - i,
    {
        proof {
            reveal(Seq::filter);
            assert(listed@.take(i + 1).drop_last() =~= listed@.take(i as int));
        }
        if !contains_identity(other, listed[i].identity) {
            missing.push(listed[i]);
        }
        i = i + 1;
    }
    proof {
        assert(listed@.take(i as int) =~= listed@);
    }
    missing
}

/// Tells what changed from `baseline` to `current`.
pub fn file_delta(baseline: &Vec<ObjectRef>, current: &Vec<ObjectRef>) -> (delta: FileDelta)
    ensures
        delta.added@ == added_files(baseline@, current@),
        delta.removed@ == removed_names(baseline@, current@),
{
    let added = files_missing_in(current, baseline);
    let gone = files_missing_in(baseline, current);
    let mut removed: Vec<ObjectIdentity> = Vec::new();
    let mut i: usize = 0;
    while i < gone.len()
        invariant
            i <= gone@.len(),
            removed@ == gone@.take(i as int).map_values(|o: ObjectRef| o.identity),
        decreases gone@.len() - i,
    {
        removed.push(gone[i].identity);
        proof {
            assert(removed@ =~= gone@.take(i + 1).map_values(|o: ObjectRef| o.identity));
        }
        i = i + 1;
    }
    proof {
        assert(gone@.take(i as int) =~= gone@);
    }
    FileDelta { added, removed }
}

/// `files` is `baseline` without the `removed` names and with the `added` files,
/// in order.
pub open spec fn updated(
    baseline: Seq<ObjectRef>,
    added: Seq<ObjectRef>,
    removed: Seq<ObjectIdentity>,
    files: Seq<ObjectRef>,
) -> bool {
    &&& sorted(files)
    &&& forall|o: ObjectRef| #[trigger]
        files.contains(o) <==> is_latest(added, o) || (baseline.contains(o) && !removed.contains(
            o.identity,
        ) && !lists(added, o.identity))
}

/// `o` is in the list, and nothing of its name comes later.
pub open spec fn is_latest(list: Seq<ObjectRef>, o: ObjectRef) -> bool {
    exists|i: int|
        0 <= i < list.len() && #[trigger] list[i] == o && forall|j: int|
            i < j < list.len() ==> (#[trigger] list[j]).identity != o.identity
}

fn names_contain(names: &Vec<ObjectIdentity>, name: ObjectIdentity) -> (found: bool)
    ensures
        found == names@.contains(name),
{
    let mut i: usize = 0;
    while i < names.len()
        invariant
            i <= names@.len(),
            forall|a: int| 0 <= a < i ==> names@[a] != name,
        decreases names@.len() - i,
    {
        if names[i] == name {
            assert(names@[i as int] == name);
            return true;
        }
        i = i + 1;
    }
    false
}

/// The files of an archived state: those of its complete list, without what was
/// removed since and with what was added.
pub fn current_files(
    baseline: &Vec<ObjectRef>,
    added: &Vec<ObjectRef>,
    removed: &Vec<ObjectIdentity>,
) -> (files: Vec<ObjectRef>)
    requires
        sorted(baseline@),
    ensures
        updated(baseline@, added@, removed@, files@),
{
    let mut files: Vec<ObjectRef> = Vec::new();
    let mut i: usize = 0;
    while i < baseline.len()
        invariant
            i <= baseline@.len(),
            sorted(baseline@),
            sorted(files@),
            forall|o: ObjectRef| #[trigger]
                files@.contains(o) <==> baseline@.take(i as int).contains(o)
                    && !removed@.contains(o.identity),
        decreases baseline@.len() - i,
    {
        let ghost before = files@;
        let object: ObjectRef = baseline[i];
        proof {
            assert(baseline@.take(i + 1) =~= baseline@.take(i as int).push(object));
        }
        if !names_contain(removed, object.identity) {
            files.push(object);
            proof {
                assert forall|a: int, b: int|
                    0 <= a < b < files@.len() implies files@[a].identity.before(
                    files@[b].identity,
                ) by {
                    if b == before.len() {
                        assert(before.contains(before[a]));
                        let k = choose|k: int| 0 <= k < i && baseline@[k] == before[a];
                    }
                }
            }
        }
        proof {
            assert forall|o: ObjectRef| #[trigger] files@.contains(o) <==> baseline@.take(
                i + 1,
            ).contains(o) && !removed@.contains(o.identity) by {
                let shorter = baseline@.take(i as int);
                if shorter.push(object).contains(o) && o != object {
                    let k = choose|k: int| 0 <= k < shorter.push(object).len() && shorter.push(object)[k] == o;
                }
                if shorter.contains(o) {
                    let k = choose|k: int| 0 <= k < shorter.len() && shorter[k] == o;
                }
                assert(shorter.push(object)[i as int] == object);
                if files@.contains(o) && o != object {
                    let k = choose|k: int| 0 <= k < files@.len() && files@[k] == o;
                }
                if before.contains(o) {
                    let k = choose|k: int| 0 <= k < before.len() && before[k] == o;
                    assert(files@[k] == o);
                }
                if !removed@.contains(object.identity) {
                    assert(files@[files@.len() - 1] == object);
                }
            }
        }
        i = i + 1;
    }
    proof {
        assert(baseline@.take(i as int) =~= baseline@);
    }
    let ghost base = files@;
    let mut j: usize = 0;
    while j < added.len()
        invariant
            j <= added@.len(),
            sorted(files@),
            forall|o: ObjectRef| #[trigger]
                files@.contains(o) <==> is_latest(added@.take(j as int), o) || (base.contains(o)
                    && !lists(added@.take(j as int), o.identity)),
        decreases added@.len() - j,
    {
        let ghost before = files@;
        let object: ObjectRef = added[j];
        place_object(&mut files, object);
        proof {
            let shorter = added@.take(j as int);
            let longer = added@.take(j + 1);
            assert(longer =~= shorter.push(object));
            assert forall|o: ObjectRef| #[trigger] files@.contains(o) <==> is_latest(longer, o) || (
            base.contains(o) && !lists(longer, o.identity)) by {
                lemma_latest_push(shorter, object, o);
                assert(lists(longer, o.identity) <==> lists(shorter, o.identity) || o.identity
                    == object.identity) by {
                    if lists(shorter, o.identity) {
                        let k = choose|k: int|
                            0 <= k < shorter.len() && #[trigger] shorter[k].identity == o.identity;
                        assert(longer[k].identity == o.identity);
                    }
                    if lists(longer, o.identity) {
                        let k = choose|k: int|
                            0 <= k < longer.len() && #[trigger] longer[k].identity == o.identity;
                        if k < shorter.len() {
                            assert(shorter[k].identity == o.identity);
                        }
                    }
                    assert(longer[j as int] == object);
                }
                assert(before.contains(o) <==> is_latest(shorter, o) || (base.contains(o) && !lists(
                    shorter,
                    o.identity,
                )));
            }
        }
        j = j + 1;
    }
    proof {
        assert(added@.take(j as int) =~= added@);
    }
    files
}

/// `files` are those of `list` in the order of names; of several with one name, the
/// last.
pub open spec fn in_order(list: Seq<ObjectRef>, files: Seq<ObjectRef>) -> bool {
    &&& sorted(files)
    &&& forall|o: ObjectRef| #[trigger] files.contains(o) <==> is_latest(list, o)
}

pub fn put_in_order(list: &Vec<ObjectRef>) -> (files: Vec<ObjectRef>)
    ensures
        in_order(list@, files@),
{
    let none: Vec<ObjectRef> = Vec::new();
    let gone: Vec<ObjectIdentity> = Vec::new();
    let files = current_files(&none, list, &gone);
    proof {
        assert forall|o: ObjectRef| #[trigger] files@.contains(o) <==> is_latest(list@, o) by {
            assert(!none@.contains(o));
        }
    }
    files
}

proof fn lemma_latest_push(list: Seq<ObjectRef>, object: ObjectRef, o: ObjectRef)
    ensures
        is_latest(list.push(object), o) <==> o == object || (is_latest(list, o) && o.identity
            != object.identity),
{
    let longer = list.push(object);
    if is_latest(longer, o) {
        let i = choose|i: int|
            0 <= i < longer.len() && #[trigger] longer[i] == o && forall|j: int|
                i < j < longer.len() ==> (#[trigger] longer[j]).identity != o.identity;
        if i < list.len() {
            assert(list[i] == o);
            assert(longer[list.len() as int].identity != o.identity);
            assert forall|j: int| i < j < list.len() implies (#[trigger] list[j]).identity
                != o.identity by {
                assert(longer[j].identity != o.identity);
            }
        }
    }
    if is_latest(list, o) && o.identity != object.identity {
        let i = choose|i: int|
            0 <= i < list.len() && #[trigger] list[i] == o && forall|j: int|
                i < j < list.len() ==> (#[trigger] list[j]).identity != o.identity;
        assert(longer[i] == o);
        assert forall|j: int| i < j < longer.len() implies (#[trigger] longer[j]).identity
            != o.identity by {
            if j < list.len() {
                assert(list[j].identity != o.identity);
            }
        }
    }
    if o == object {
        assert(longer[list.len() as int] == o);
    }
}

/// In a sorted list a name stands for one object.
pub proof fn lemma_sorted_names(objects: Seq<ObjectRef>, a: ObjectRef, b: ObjectRef)
    requires
        sorted(objects),
        objects.contains(a),
        objects.contains(b),
        a.identity == b.identity,
    ensures
        a == b,
{
    let i = choose|i: int| 0 <= i < objects.len() && objects[i] == a;
    let j = choose|j: int| 0 <= j < objects.len() && objects[j] == b;
    if i < j {
        assert(objects[i].identity.before(objects[j].identity));
    } else if j < i {
        assert(objects[j].identity.before(objects[i].identity));
    }
}

/// Two sorted lists with the same members are the same list.
pub proof fn lemma_sorted_unique(a: Seq<ObjectRef>, b: Seq<ObjectRef>)
    requires
        sorted(a),
        sorted(b),
        forall|o: ObjectRef| #[trigger] a.contains(o) <==> b.contains(o),
    ensures
        a == b,
    decreases a.len(),
{
    if a.len() == 0 {
        if b.len() > 0 {
            assert(a.contains(b[0]));
        }
    } else {
        assert(a.contains(a.last()));
        assert(b.contains(a.last()));
        assert(b.contains(b.last()));
        assert(a.contains(b.last()));
        let i = choose|i: int| 0 <= i < b.len() && b[i] == a.last();
        let j = choose|j: int| 0 <= j < a.len() && a[j] == b.last();
        if i < b.len() - 1 {
            assert(b[i].identity.before(b[b.len() - 1].identity));
            if j < a.len() - 1 {
                assert(a[j].identity.before(a[a.len() - 1].identity));
            }
        }
        assert(a.last() == b.last());
        let x = a.drop_last();
        let y = b.drop_last();
        assert forall|o: ObjectRef| #[trigger] x.contains(o) <==> y.contains(o) by {
            lemma_member_before_last(a, o);
            lemma_member_before_last(b, o);
        }
        lemma_sorted_unique(x, y);
        assert(a =~= x.push(a.last()));
        assert(b =~= y.push(b.last()));
    }
}

proof fn lemma_member_before_last(a: Seq<ObjectRef>, o: ObjectRef)
    requires
        sorted(a),
        a.len() > 0,
    ensures
        a.drop_last().contains(o) <==> a.contains(o) && o != a.last(),
{
    let x = a.drop_last();
    if x.contains(o) {
        let k = choose|k: int| 0 <= k < x.len() && x[k] == o;
        assert(a[k] == o);
        assert(a[k].identity.before(a[a.len() - 1].identity));
    }
    if a.contains(o) && o != a.last() {
        let k = choose|k: int| 0 <= k < a.len() && a[k] == o;
        assert(x[k] == o);
    }
}

/// What an archived state lists is what was archived: a state given by its
/// difference from a complete list has the very files the difference was made
/// for.
pub proof fn an_archived_state_keeps_its_files(
    baseline: Seq<ObjectRef>,
    current: Seq<ObjectRef>,
    files: Seq<ObjectRef>,
)
    requires
        sorted(baseline),
        sorted(current),
        // A name stands for one object.
        forall|a: ObjectRef, b: ObjectRef|
            #![trigger baseline.contains(a), current.contains(b)]
            baseline.contains(a) && current.contains(b) && a.identity == b.identity ==> a == b,
        updated(
            baseline,
            added_files(baseline, current),
            removed_names(baseline, current),
            files,
        ),
    ensures
        files == current,
{
    let added = added_files(baseline, current);
    let removed = removed_names(baseline, current);
    let new = |o: ObjectRef| !lists(baseline, o.identity);
    let gone = |o: ObjectRef| !lists(current, o.identity);
    assert forall|o: ObjectRef| #[trigger] added.contains(o) <==> current.contains(o) && !lists(
        baseline,
        o.identity,
    ) by {
        lemma_filter_members(current, new, o);
    }
    assert forall|name: ObjectIdentity| #[trigger] removed.contains(name) <==> lists(baseline, name)
        && !lists(current, name) by {
        let kept = baseline.filter(gone);
        if removed.contains(name) {
            let k = choose|k: int| 0 <= k < removed.len() && removed[k] == name;
            assert(kept.contains(kept[k]));
            lemma_filter_members(baseline, gone, kept[k]);
            let m = choose|m: int| 0 <= m < baseline.len() && baseline[m] == kept[k];
            assert(baseline[m].identity == name);
        }
        if lists(baseline, name) && !lists(current, name) {
            let m = choose|m: int|
                0 <= m < baseline.len() && #[trigger] baseline[m].identity == name;
            lemma_filter_members(baseline, gone, baseline[m]);
            let k = choose|k: int| 0 <= k < kept.len() && kept[k] == baseline[m];
            assert(removed[k] == name);
        }
    }
    assert forall|o: ObjectRef| #[trigger] files.contains(o) <==> current.contains(o) by {
        if files.contains(o) {
            if is_latest(added, o) {
                assert(added.contains(o));
            } else {
                assert(baseline.contains(o) && !removed.contains(o.identity));
                let m = choose|m: int| 0 <= m < baseline.len() && baseline[m] == o;
                assert(lists(baseline, o.identity));
                assert(lists(current, o.identity));
                let k = choose|k: int|
                    0 <= k < current.len() && #[trigger] current[k].identity == o.identity;
                assert(current.contains(current[k]));
            }
        }
        if current.contains(o) {
            let k = choose|k: int| 0 <= k < current.len() && current[k] == o;
            assert(current[k].identity == o.identity);
            if !lists(baseline, o.identity) {
                assert(added.contains(o));
                lemma_only_is_latest(current, added, o);
            } else {
                let m = choose|m: int|
                    0 <= m < baseline.len() && #[trigger] baseline[m].identity == o.identity;
                assert(baseline.contains(baseline[m]));
                assert(baseline[m] == o);
                assert(!removed.contains(o.identity));
                if lists(added, o.identity) {
                    let n = choose|n: int|
                        0 <= n < added.len() && #[trigger] added[n].identity == o.identity;
                    assert(added.contains(added[n]));
                }
            }
        }
    }
    lemma_sorted_unique(files, current);
}

proof fn lemma_filter_members(list: Seq<ObjectRef>, keep: spec_fn(ObjectRef) -> bool, o: ObjectRef)
    ensures
        list.filter(keep).contains(o) <==> list.contains(o) && keep(o),
    decreases list.len(),
{
    reveal(Seq::filter);
    if list.len() > 0 {
        let shorter = list.drop_last();
        lemma_filter_members(shorter, keep, o);
        let kept = shorter.filter(keep);
        if list.contains(o) {
            let k = choose|k: int| 0 <= k < list.len() && list[k] == o;
            if k < shorter.len() {
                assert(shorter[k] == o);
            }
        }
        if shorter.contains(o) {
            let k = choose|k: int| 0 <= k < shorter.len() && shorter[k] == o;
            assert(list[k] == o);
        }
        assert(list[list.len() - 1] == list.last());
        if keep(list.last()) {
            let all = list.filter(keep);
            assert(all == kept.push(list.last()));
            if all.contains(o) {
                let k = choose|k: int| 0 <= k < all.len() && all[k] == o;
                if k < kept.len() {
                    assert(kept[k] == o);
                }
            }
            if kept.contains(o) {
                let k = choose|k: int| 0 <= k < kept.len() && kept[k] == o;
                assert(all[k] == o);
            }
            assert(all[kept.len() as int] == list.last());
        }
    }
}

proof fn lemma_only_is_latest(current: Seq<ObjectRef>, added: Seq<ObjectRef>, o: ObjectRef)
    requires
        sorted(current),
        added.contains(o),
        forall|x: ObjectRef| #[trigger] added.contains(x) ==> current.contains(x),
    ensures
        is_latest(added, o),
{
    // The last place in `added` where `o` stands; nothing after it has its name.
    lemma_last_place(added, o, added.len() as int);
    let i = choose|i: int|
        0 <= i < added.len() && added[i] == o && forall|j: int|
            i < j < added.len() ==> #[trigger] added[j] != o;
    assert forall|j: int| i < j < added.len() implies (#[trigger] added[j]).identity
        != o.identity by {
        assert(added.contains(added[j]));
        if added[j].identity == o.identity {
            lemma_sorted_names(current, added[j], o);
        }
    }
}

proof fn lemma_last_place(list: Seq<ObjectRef>, o: ObjectRef, n: int)
    requires
        list.contains(o),
        0 <= n <= list.len(),
        forall|j: int| n <= j < list.len() ==> #[trigger] list[j] != o,
    ensures
        exists|i: int|
            0 <= i < list.len() && list[i] == o && forall|j: int|
                i < j < list.len() ==> #[trigger] list[j] != o,
    decreases n,
{
    if n == 0 {
        let k = choose|k: int| 0 <= k < list.len() && list[k] == o;
        assert(list[k] != o);
    } else if list[n - 1] != o {
        lemma_last_place(list, o, n - 1);
    } else {
        assert(list[n - 1] == o);
    }
}

} // verus!
