//! Fair pending work for keys that may have at most one active operation.

use std::collections::{BTreeMap, BTreeSet, VecDeque};
use vstd::prelude::*;

verus! {

broadcast use {
    vstd::std_specs::btree::group_btree_axioms,
    vstd::std_specs::vecdeque::group_vec_dequeue_axioms,
};

/// Pending work by key. Work of one key runs in the order it arrived, one
/// item at a time; keys with work take turns.
pub struct KeyedQueue<V> {
    queues: BTreeMap<u64, VecDeque<V>>,
    ready: VecDeque<u64>,
    active: BTreeSet<u64>,
    pending: usize,
}

/// Items in all queues of `queues`.
pub closed spec fn total<V>(queues: Map<u64, VecDeque<V>>) -> nat
    decreases queues.dom().len(),
    when queues.dom().finite()
{
    if queues.dom().len() == 0 {
        0
    } else {
        let key = queues.dom().choose();
        queues[key]@.len() + total(queues.remove(key))
    }
}

proof fn lemma_total_remove<V>(queues: Map<u64, VecDeque<V>>, key: u64)
    requires
        queues.dom().finite(),
        queues.contains_key(key),
    ensures
        total(queues) == queues[key]@.len() + total(queues.remove(key)),
    decreases queues.dom().len(),
{
    let pick = queues.dom().choose();
    assert(queues.dom().len() > 0) by {
        if queues.dom().len() == 0 {
            vstd::set_lib::lemma_set_empty_equivalency_len(queues.dom());
        }
    }
    if pick != key {
        lemma_total_remove(queues.remove(pick), key);
        lemma_total_remove(queues.remove(key), pick);
        assert(queues.remove(pick).remove(key) =~= queues.remove(key).remove(pick));
    }
}

proof fn lemma_total_insert<V>(queues: Map<u64, VecDeque<V>>, key: u64, queue: VecDeque<V>)
    requires
        queues.dom().finite(),
    ensures
        total(queues.insert(key, queue)) == queue@.len() + total(queues.remove(key)),
        queues.contains_key(key) ==> total(queues.remove(key)) + queues[key]@.len() == total(
            queues,
        ),
        !queues.contains_key(key) ==> total(queues.remove(key)) == total(queues),
{
    lemma_total_remove(queues.insert(key, queue), key);
    assert(queues.insert(key, queue).remove(key) =~= queues.remove(key));
    if queues.contains_key(key) {
        lemma_total_remove(queues, key);
    } else {
        assert(queues.remove(key) =~= queues);
    }
}

proof fn lemma_total_zero<V>(queues: Map<u64, VecDeque<V>>)
    requires
        queues.dom().finite(),
    ensures
        total(queues) == 0 <==> forall|key: u64| queues.contains_key(key) ==> #[trigger]
            queues[key]@.len() == 0,
    decreases queues.dom().len(),
{
    if queues.dom().len() == 0 {
        vstd::set_lib::lemma_set_empty_equivalency_len(queues.dom());
    } else {
        let pick = queues.dom().choose();
        assert(queues.dom().contains(pick)) by {
            vstd::set_lib::lemma_set_empty_equivalency_len(queues.dom());
        }
        let rest = queues.remove(pick);
        lemma_total_zero(rest);
        if total(queues) == 0 {
            assert forall|key: u64| queues.contains_key(key) implies #[trigger]
                queues[key]@.len() == 0 by {
                if key != pick {
                    assert(rest.contains_key(key) && rest[key] == queues[key]);
                }
            }
        } else if forall|key: u64|
            queues.contains_key(key) ==> #[trigger] queues[key]@.len() == 0 {
            assert forall|key: u64| rest.contains_key(key) implies #[trigger] rest[key]@.len()
                == 0 by {
                assert(queues.contains_key(key) && rest[key] == queues[key]);
            }
        }
    }
}

/// Sum of `f` over `items`.
spec fn weigh<V>(items: Seq<V>, f: spec_fn(V) -> nat) -> nat
    decreases items.len(),
{
    if items.len() == 0 {
        0
    } else {
        weigh(items.drop_last(), f) + f(items.last())
    }
}

proof fn lemma_weigh_push<V>(items: Seq<V>, value: V, f: spec_fn(V) -> nat)
    ensures
        weigh(items.push(value), f) == weigh(items, f) + f(value),
{
    assert(items.push(value).drop_last() =~= items);
}

proof fn lemma_weigh_remove<V>(items: Seq<V>, at: int, f: spec_fn(V) -> nat)
    requires
        0 <= at < items.len(),
    ensures
        weigh(items, f) == weigh(items.remove(at), f) + f(items[at]),
    decreases items.len(),
{
    let rest = items.remove(at);
    if at == items.len() - 1 {
        assert(rest =~= items.drop_last());
    } else {
        lemma_weigh_remove(items.drop_last(), at, f);
        assert(rest.drop_last() =~= items.drop_last().remove(at));
        assert(rest.last() == items.last());
    }
}

/// Sum of `f` over the items of all queues.
spec fn weigh_all<V>(queues: Map<u64, VecDeque<V>>, f: spec_fn(V) -> nat) -> nat
    decreases queues.dom().len(),
    when queues.dom().finite()
{
    if queues.dom().len() == 0 {
        0
    } else {
        let key = queues.dom().choose();
        weigh(queues[key]@, f) + weigh_all(queues.remove(key), f)
    }
}

proof fn lemma_weight_remove<V>(queues: Map<u64, VecDeque<V>>, key: u64, f: spec_fn(V) -> nat)
    requires
        queues.dom().finite(),
        queues.contains_key(key),
    ensures
        weigh_all(queues, f) == weigh(queues[key]@, f) + weigh_all(queues.remove(key), f),
    decreases queues.dom().len(),
{
    let pick = queues.dom().choose();
    assert(queues.dom().len() > 0) by {
        if queues.dom().len() == 0 {
            vstd::set_lib::lemma_set_empty_equivalency_len(queues.dom());
        }
    }
    if pick != key {
        lemma_weight_remove(queues.remove(pick), key, f);
        lemma_weight_remove(queues.remove(key), pick, f);
        assert(queues.remove(pick).remove(key) =~= queues.remove(key).remove(pick));
    }
}

proof fn lemma_weight_insert<V>(
    queues: Map<u64, VecDeque<V>>,
    key: u64,
    queue: VecDeque<V>,
    f: spec_fn(V) -> nat,
)
    requires
        queues.dom().finite(),
    ensures
        weigh_all(queues.insert(key, queue), f) == weigh(queue@, f) + weigh_all(
            queues.remove(key),
            f,
        ),
        queues.contains_key(key) ==> weigh_all(queues.remove(key), f) + weigh(queues[key]@, f)
            == weigh_all(queues, f),
        !queues.contains_key(key) ==> weigh_all(queues.remove(key), f) == weigh_all(queues, f),
{
    lemma_weight_remove(queues.insert(key, queue), key, f);
    assert(queues.insert(key, queue).remove(key) =~= queues.remove(key));
    if queues.contains_key(key) {
        lemma_weight_remove(queues, key, f);
    } else {
        assert(queues.remove(key) =~= queues);
    }
}

/// `keys` without `key`.
pub open spec fn without(keys: Seq<u64>, key: u64) -> Seq<u64> {
    keys.filter(|k: u64| k != key)
}

proof fn lemma_without_absent(keys: Seq<u64>, key: u64)
    requires
        !keys.contains(key),
    ensures
        without(keys, key) == keys,
    decreases keys.len(),
{
    reveal(Seq::filter);
    if keys.len() > 0 {
        let front = keys.drop_last();
        assert(!front.contains(key)) by {
            if front.contains(key) {
                let i = choose|i: int| 0 <= i < front.len() && front[i] == key;
            }
        }
        lemma_without_absent(front, key);
    }
}

proof fn lemma_without_at(keys: Seq<u64>, at: int)
    requires
        keys.no_duplicates(),
        0 <= at < keys.len(),
    ensures
        without(keys, keys[at]) == keys.remove(at),
    decreases keys.len(),
{
    reveal(Seq::filter);
    let key = keys[at];
    let front = keys.drop_last();
    if at == keys.len() - 1 {
        assert(!front.contains(key)) by {
            if front.contains(key) {
                let i = choose|i: int| 0 <= i < front.len() && front[i] == key;
                assert(keys[i] == key);
            }
        }
        lemma_without_absent(front, key);
        assert(keys.remove(at) =~= front);
    } else {
        assert(front.no_duplicates()) by {
            assert forall|i: int, j: int|
                0 <= i < front.len() && 0 <= j < front.len() && i != j implies front[i]
                != front[j] by {
                assert(keys[i] != keys[j]);
            }
        }
        lemma_without_at(front, at);
        assert(keys.remove(at) =~= front.remove(at).push(keys.last()));
    }
}

impl<V> KeyedQueue<V> {
    /// Work of `key` that has not started, oldest first.
    pub closed spec fn waiting(self, key: u64) -> Seq<V> {
        if self.queues@.contains_key(key) {
            self.queues@[key]@
        } else {
            Seq::empty()
        }
    }

    /// Keys whose turn will come, next one first.
    pub closed spec fn ready(self) -> Seq<u64> {
        self.ready@
    }

    /// Keys with an operation under way.
    pub closed spec fn active(self) -> Set<u64> {
        self.active@
    }

    /// Items that have not started, over all keys.
    pub closed spec fn pending(self) -> nat {
        self.pending as nat
    }

    /// Sum of `f` over the items that have not started.
    pub closed spec fn weight(self, f: spec_fn(V) -> nat) -> nat {
        weigh_all(self.queues@, f)
    }

    /// A key waits for its turn exactly if it has work and none under way, and
    /// it waits once.
    pub closed spec fn wf(self) -> bool {
        &&& self.ready@.no_duplicates()
        &&& self.active@.finite()
        &&& forall|key: u64| #[trigger]
            self.ready@.contains(key) <==> self.waiting(key).len() > 0 && !self.active@.contains(
                key,
            )
        &&& forall|key: u64| #[trigger]
            self.queues@.contains_key(key) ==> self.queues@[key]@.len() > 0
                || self.active@.contains(key)
        &&& forall|key: u64| #[trigger]
            self.active@.contains(key) ==> self.queues@.contains_key(key)
        &&& self.pending == total(self.queues@)
    }

    pub fn new() -> (queue: Self)
        ensures
            queue.wf(),
            queue.ready() == Seq::<u64>::empty(),
            queue.active() == Set::<u64>::empty(),
            queue.pending() == 0,
            forall|key: u64| #[trigger] queue.waiting(key) == Seq::<V>::empty(),
            forall|f: spec_fn(V) -> nat| #[trigger] queue.weight(f) == 0,
    {
        KeyedQueue {
            queues: BTreeMap::new(),
            ready: VecDeque::new(),
            active: BTreeSet::new(),
            pending: 0,
        }
    }

    /// Puts `value` behind the other work of `key`. A key that had nothing to
    /// do goes behind the other ready keys.
    pub fn push(&mut self, key: u64, value: V)
        requires
            old(self).wf(),
            old(self).pending() < usize::MAX,
        ensures
            final(self).wf(),
            final(self).waiting(key) == old(self).waiting(key).push(value),
            forall|other: u64| other != key ==> #[trigger] final(self).waiting(other) == old(
                self,
            ).waiting(other),
            final(self).active() == old(self).active(),
            final(self).pending() == old(self).pending() + 1,
            forall|f: spec_fn(V) -> nat| #[trigger]
                final(self).weight(f) == old(self).weight(f) + f(value),
            final(self).ready() == (if old(self).waiting(key).len() == 0 && !old(
                self,
            ).active().contains(key) {
                old(self).ready().push(key)
            } else {
                old(self).ready()
            }),
    {
        let mut queue: VecDeque<V> = match self.queues.remove(&key) {
            Some(queue) => queue,
            None => VecDeque::new(),
        };
        let busy: bool = self.active.contains(&key);
        proof {
            assert(queue@ =~= old(self).waiting(key));
        }
        if queue.len() == 0 && !busy {
            self.ready.push_back(key);
        }
        queue.push_back(value);
        proof {
            lemma_total_insert(old(self).queues@, key, queue);
            assert(old(self).queues@.remove(key).insert(key, queue) =~= old(self).queues@.insert(
                key,
                queue,
            ));
        }
        self.queues.insert(key, queue);
        self.pending = self.pending + 1;
        proof {
            let start = old(self).waiting(key);
            assert forall|f: spec_fn(V) -> nat| #[trigger] self.weight(f) == old(self).weight(f)
                + f(value) by {
                lemma_weight_insert(old(self).queues@, key, queue, f);
                lemma_weigh_push(start, value, f);
                assert(queue@ =~= start.push(value));
            }
            let before = old(self).ready@;
            let after = self.ready@;
            assert forall|k: u64| #[trigger]
                after.contains(k) <==> self.waiting(k).len() > 0 && !self.active@.contains(k) by {
                if after == before.push(key) {
                    assert(after.contains(k) <==> before.contains(k) || k == key) by {
                        if before.contains(k) {
                            let i = choose|i: int| 0 <= i < before.len() && before[i] == k;
                            assert(after[i] == k);
                        }
                        assert(after[before.len() as int] == key);
                        if after.contains(k) {
                            let i = choose|i: int| 0 <= i < after.len() && after[i] == k;
                            if i < before.len() {
                                assert(before[i] == k);
                            }
                        }
                    }
                }
                assert(before.contains(k) <==> old(self).waiting(k).len() > 0 && !old(
                    self,
                ).active@.contains(k));
            }
            assert(!before.contains(key) || after == before);
        }
    }

    /// Starts the oldest work of the key whose turn it is, unless
    /// `concurrency` keys are busy already.
    pub fn start_next(&mut self, concurrency: usize) -> (started: Option<(u64, V)>)
        requires
            old(self).wf(),
        ensures
            final(self).wf(),
            started is Some <==> old(self).active().len() < concurrency && old(self).ready().len()
                > 0,
            match started {
                Some((key, value)) => {
                    &&& key == old(self).ready()[0]
                    &&& !old(self).active().contains(key)
                    &&& old(self).waiting(key).len() > 0
                    &&& value == old(self).waiting(key)[0]
                    &&& final(self).waiting(key) == old(self).waiting(key).skip(1)
                    &&& forall|other: u64|
                        other != key ==> #[trigger] final(self).waiting(other) == old(
                            self,
                        ).waiting(other)
                    &&& final(self).ready() == old(self).ready().skip(1)
                    &&& final(self).active() == old(self).active().insert(key)
                    &&& final(self).pending() == old(self).pending() - 1
                    &&& forall|f: spec_fn(V) -> nat| #[trigger]
                        final(self).weight(f) + f(value) == old(self).weight(f)
                },
                None => *final(self) == *old(self),
            },
    {
        if self.active.len() >= concurrency || self.ready.len() == 0 {
            return None;
        }
        let key: u64 = self.ready[0];
        proof {
            assert(old(self).ready@.contains(key)) by {
                assert(old(self).ready@[0] == key);
            }
        }
        match self.queues.remove(&key) {
            Some(mut queue) => {
                let ghost before = queue;
                match queue.pop_front() {
                    Some(value) => {
                        self.ready.pop_front();
                        self.active.insert(key);
                        proof {
                            lemma_total_insert(old(self).queues@, key, queue);
                            assert(old(self).queues@.remove(key).insert(key, queue)
                                =~= old(self).queues@.insert(key, queue));
                        }
                        self.queues.insert(key, queue);
                        self.pending = self.pending - 1;
                        proof {
                            let was = old(self).ready@;
                            let now = self.ready@;
                            assert(now =~= was.skip(1));
                            assert(before@.subrange(1, before@.len() as int) =~= before@.skip(1));
                            assert forall|f: spec_fn(V) -> nat| #[trigger]
                                self.weight(f) + f(value) == old(self).weight(f) by {
                                lemma_weight_insert(old(self).queues@, key, queue, f);
                                lemma_weigh_remove(before@, 0, f);
                                assert(before@.remove(0) =~= queue@);
                            }
                            assert forall|k: u64| #[trigger]
                                now.contains(k) <==> self.waiting(k).len() > 0
                                    && !self.active@.contains(k) by {
                                assert(was.contains(k) <==> old(self).waiting(k).len() > 0 && !old(
                                    self,
                                ).active@.contains(k));
                                if now.contains(k) {
                                    let i = choose|i: int| 0 <= i < now.len() && now[i] == k;
                                    assert(was[i + 1] == k);
                                    assert(was[0] != was[i + 1]);
                                }
                                if was.contains(k) && k != key {
                                    let i = choose|i: int| 0 <= i < was.len() && was[i] == k;
                                    assert(now[i - 1] == k);
                                }
                            }
                        }
                        Some((key, value))
                    },
                    None => {
                        proof {
                            assert(false);
                        }
                        None
                    },
                }
            },
            None => {
                proof {
                    assert(false);
                }
                None
            },
        }
    }

    /// Ends the operation under way for `key`. If more work waits, the key
    /// goes behind the other ready keys.
    pub fn complete(&mut self, key: u64)
        requires
            old(self).wf(),
            old(self).active().contains(key),
        ensures
            final(self).wf(),
            forall|k: u64| #[trigger] final(self).waiting(k) == old(self).waiting(k),
            final(self).active() == old(self).active().remove(key),
            final(self).pending() == old(self).pending(),
            forall|f: spec_fn(V) -> nat| #[trigger] final(self).weight(f) == old(self).weight(f),
            final(self).ready() == (if old(self).waiting(key).len() > 0 {
                old(self).ready().push(key)
            } else {
                old(self).ready()
            }),
    {
        self.active.remove(&key);
        let ghost was = old(self).ready@;
        proof {
            assert(old(self).active@.contains(key));
            assert(!was.contains(key));
        }
        let empty: bool = match self.queues.get(&key) {
            Some(queue) => queue.len() == 0,
            None => false,
        };
        if empty {
            proof {
                lemma_total_insert(old(self).queues@, key, old(self).queues@[key]);
            }
            self.queues.remove(&key);
        } else {
            self.ready.push_back(key);
        }
        proof {
            let now = self.ready@;
            assert forall|k: u64| #[trigger]
                now.contains(k) <==> self.waiting(k).len() > 0 && !self.active@.contains(k) by {
                assert(was.contains(k) <==> old(self).waiting(k).len() > 0 && !old(
                    self,
                ).active@.contains(k));
                if !empty {
                    assert(now[was.len() as int] == key);
                    if now.contains(k) {
                        let i = choose|i: int| 0 <= i < now.len() && now[i] == k;
                        if i < was.len() {
                            assert(was[i] == k);
                        }
                    }
                    if was.contains(k) {
                        let i = choose|i: int| 0 <= i < was.len() && was[i] == k;
                        assert(now[i] == k);
                    }
                }
            }
            assert forall|f: spec_fn(V) -> nat| #[trigger] self.weight(f) == old(self).weight(f) by {
                if empty {
                    lemma_weight_remove(old(self).queues@, key, f);
                }
            }
            assert forall|k: u64| #[trigger] self.waiting(k) == old(self).waiting(k) by {
                if empty && k == key {
                    assert(old(self).queues@[key]@ =~= Seq::<V>::empty());
                }
            }
        }
    }

    /// Takes the oldest waiting item of `key` that `predicate` accepts. The
    /// operation under way, if any, is not touched.
    pub fn remove_where(&mut self, key: u64, predicate: impl Fn(&V) -> bool) -> (removed: Option<V>)
        requires
            old(self).wf(),
            forall|v: V| #[trigger] call_requires(predicate, (&v,)),
        ensures
            final(self).wf(),
            match removed {
                Some(value) => exists|at: int|
                    {
                        &&& 0 <= at < old(self).waiting(key).len()
                        &&& value == #[trigger] old(self).waiting(key)[at]
                        &&& call_ensures(predicate, (&value,), true)
                        &&& forall|i: int|
                            0 <= i < at ==> call_ensures(
                                predicate,
                                (&#[trigger] old(self).waiting(key)[i],),
                                false,
                            )
                        &&& final(self).waiting(key) == old(self).waiting(key).remove(at)
                    },
                None => forall|i: int|
                    0 <= i < old(self).waiting(key).len() ==> call_ensures(
                        predicate,
                        (&#[trigger] old(self).waiting(key)[i],),
                        false,
                    ),
            },
            removed is None ==> final(self).waiting(key) == old(self).waiting(key),
            forall|other: u64| other != key ==> #[trigger] final(self).waiting(other) == old(
                self,
            ).waiting(other),
            final(self).active() == old(self).active(),
            removed is Some ==> final(self).pending() == old(self).pending() - 1,
            removed is None ==> final(self).pending() == old(self).pending(),
            forall|f: spec_fn(V) -> nat| #[trigger]
                final(self).weight(f) + (match removed {
                    Some(value) => f(value),
                    None => 0,
                }) == old(self).weight(f),
            final(self).ready() == (if final(self).waiting(key).len() == 0 {
                without(old(self).ready(), key)
            } else {
                old(self).ready()
            }),
    {
        let ghost was = *self;
        proof {
            assert(was.ready@.contains(key) <==> was.waiting(key).len() > 0
                && !was.active@.contains(key));
            if was.waiting(key).len() == 0 {
                lemma_without_absent(was.ready@, key);
            }
            if was.active@.contains(key) {
                lemma_without_absent(was.ready@, key);
            }
        }
        let mut queue: VecDeque<V> = match self.queues.remove(&key) {
            Some(queue) => queue,
            None => {
                proof {
                    assert(self.queues@ =~= was.queues@);
                }
                return None;
            },
        };
        let ghost items = queue@;
        let mut at: usize = 0;
        while at < queue.len()
            invariant_except_break
                at <= queue@.len(),
                queue@ == items,
                forall|v: V| #[trigger] call_requires(predicate, (&v,)),
                forall|i: int| 0 <= i < at ==> call_ensures(predicate, (&#[trigger] items[i],), false),
            ensures
                at <= queue@.len(),
                queue@ == items,
                forall|i: int| 0 <= i < at ==> call_ensures(predicate, (&#[trigger] items[i],), false),
                at < items.len() ==> call_ensures(predicate, (&items[at as int],), true),
            decreases items.len() - at,
        {
            let found: bool = predicate(&queue[at]);
            if found {
                break;
            }
            at = at + 1;
        }
        match queue.remove(at) {
            Some(value) => {
                proof {
                    lemma_total_insert(was.queues@, key, queue);
                    assert(was.queues@.remove(key).insert(key, queue) =~= was.queues@.insert(
                        key,
                        queue,
                    ));
                }
                self.pending = self.pending - 1;
                let busy: bool = self.active.contains(&key);
                if queue.len() == 0 && !busy {
                    let mut turn: usize = 0;
                    while turn < self.ready.len() && self.ready[turn] != key
                        invariant
                            turn <= self.ready@.len(),
                            self.ready@ == was.ready@,
                            forall|i: int| 0 <= i < turn ==> self.ready@[i] != key,
                        decreases self.ready@.len() - turn,
                    {
                        turn = turn + 1;
                    }
                    self.ready.remove(turn);
                    proof {
                        assert(was.ready@.contains(key));
                        lemma_without_at(was.ready@, turn as int);
                        let now = self.ready@;
                        assert(now.no_duplicates()) by {
                            assert forall|i: int, j: int|
                                0 <= i < now.len() && 0 <= j < now.len() && i != j implies now[i]
                                != now[j] by {
                                let a = if i < turn {
                                    i
                                } else {
                                    i + 1
                                };
                                let b = if j < turn {
                                    j
                                } else {
                                    j + 1
                                };
                                assert(was.ready@[a] != was.ready@[b]);
                            }
                        }
                        assert forall|k: u64| #[trigger]
                            now.contains(k) <==> self.waiting(k).len() > 0
                                && !self.active@.contains(k) by {
                            assert(was.ready@.contains(k) <==> was.waiting(k).len() > 0
                                && !was.active@.contains(k));
                            if now.contains(k) {
                                let i = choose|i: int| 0 <= i < now.len() && now[i] == k;
                                let a = if i < turn {
                                    i
                                } else {
                                    i + 1
                                };
                                assert(was.ready@[a] == k);
                                assert(was.ready@[turn as int] != was.ready@[a]);
                            }
                            if was.ready@.contains(k) && k != key {
                                let i = choose|i: int|
                                    0 <= i < was.ready@.len() && was.ready@[i] == k;
                                let a = if i < turn {
                                    i
                                } else {
                                    i - 1
                                };
                                assert(now[a] == k);
                            }
                        }
                        assert(self.waiting(key) =~= items.remove(at as int));
                    }
                } else {
                    self.queues.insert(key, queue);
                    proof {
                        assert forall|k: u64| #[trigger]
                            self.ready@.contains(k) <==> self.waiting(k).len() > 0
                                && !self.active@.contains(k) by {
                            assert(was.ready@.contains(k) <==> was.waiting(k).len() > 0
                                && !was.active@.contains(k));
                        }
                    }
                }
                proof {
                    assert(was.waiting(key)[at as int] == value);
                    assert(self.wf());
                    assert forall|f: spec_fn(V) -> nat| #[trigger]
                        self.weight(f) + f(value) == was.weight(f) by {
                        lemma_weight_insert(was.queues@, key, queue, f);
                        lemma_weigh_remove(items, at as int, f);
                    }
                }
                Some(value)
            },
            None => {
                self.queues.insert(key, queue);
                proof {
                    assert(self.queues@.dom() =~= was.queues@.dom());
                    assert forall|k: u64| #[trigger] self.waiting(k) == was.waiting(k) by {}
                    lemma_total_insert(was.queues@, key, queue);
                    assert(was.queues@.remove(key).insert(key, queue) =~= was.queues@.insert(
                        key,
                        queue,
                    ));
                    assert forall|f: spec_fn(V) -> nat| #[trigger] self.weight(f) == was.weight(
                        f,
                    ) by {
                        lemma_weight_insert(was.queues@, key, queue, f);
                    }
                    assert forall|k: u64| #[trigger]
                        self.ready@.contains(k) <==> self.waiting(k).len() > 0
                            && !self.active@.contains(k) by {
                        assert(was.ready@.contains(k) <==> was.waiting(k).len() > 0
                            && !was.active@.contains(k));
                    }
                }
                None
            },
        }
    }

    pub fn pending_len(&self) -> (len: usize)
        ensures
            len == self.pending(),
    {
        self.pending
    }

    /// Whether `key` has work, under way or waiting.
    pub fn contains_key(&self, key: u64) -> (found: bool)
        requires
            self.wf(),
        ensures
            found <==> self.active().contains(key) || self.waiting(key).len() > 0,
    {
        self.active.contains(&key) || self.queues.contains_key(&key)
    }

    /// Whether no key has work, under way or waiting.
    pub fn is_idle(&self) -> (idle: bool)
        requires
            self.wf(),
        ensures
            idle <==> self.active() == Set::<u64>::empty() && forall|key: u64| #[trigger]
                self.waiting(key).len() == 0,
    {
        proof {
            lemma_total_zero(self.queues@);
            vstd::set_lib::lemma_set_empty_equivalency_len(self.active@);
            if forall|key: u64| #[trigger] self.waiting(key).len() == 0 {
                assert forall|key: u64| self.queues@.contains_key(key) implies #[trigger]
                    self.queues@[key]@.len() == 0 by {
                    assert(self.waiting(key).len() == 0);
                }
            }
        }
        self.pending == 0 && self.active.len() == 0
    }

    /// No key ever has two operations under way, and the keys waiting for a
    /// turn are exactly those with work and none under way.
    pub proof fn turns_are_exclusive(self, key: u64)
        requires
            self.wf(),
        ensures
            self.ready().no_duplicates(),
            self.ready().contains(key) <==> self.waiting(key).len() > 0 && !self.active().contains(
                key,
            ),
    {
        assert(self.ready@.contains(key) <==> self.waiting(key).len() > 0 && !self.active@.contains(
            key,
        ));
    }
}

} // verus!
