//! Small operations on ordered maps that several decisions share.

use std::collections::{BTreeMap, BTreeSet};
use vstd::prelude::*;
use vstd::std_specs::cmp::OrdSpec;
use vstd::std_specs::iter::IteratorSpec;

verus! {

broadcast use vstd::std_specs::btree::group_btree_axioms;

/// Every key once, smallest first.
pub open spec fn lists_keys<V>(keys: Seq<u64>, map: Map<u64, V>) -> bool {
    &&& forall|i: int, j: int| 0 <= i < j < keys.len() ==> keys[i] < keys[j]
    &&& forall|k: u64| #[trigger] keys.contains(k) <==> map.contains_key(k)
}

proof fn lemma_increasing(s: Seq<u64>)
    requires
        vstd::std_specs::btree::increasing_seq(s),
    ensures
        forall|i: int, j: int| 0 <= i < j < s.len() ==> s[i] < s[j],
{
    assert forall|i: int, j: int| 0 <= i < j < s.len() implies s[i] < s[j] by {
        assert(s[i].cmp_spec(&s[j]) is Less);
    }
}

/// The keys of a map, smallest first.
pub fn sorted_keys<V>(map: &BTreeMap<u64, V>) -> (keys: Vec<u64>)
    ensures
        lists_keys(keys@, map@),
{
    let mut keys: Vec<u64> = Vec::new();
    let it = map.iter();
    let ghost pairs = it.remaining();
    let ghost all = pairs.map_values(|kv: (&u64, &V)| *kv.0);
    proof {
        lemma_increasing(all);
    }
    for pair in walk: it
        invariant
            walk.seq() == pairs,
            all == pairs.map_values(|kv: (&u64, &V)| *kv.0),
            keys@ == all.take(walk.index() as int),
            walk.index() <= all.len(),
    {
        keys.push(*pair.0);
    }
    proof {
        assert(keys@ =~= all);
        assert forall|k: u64| #[trigger] keys@.contains(k) <==> map@.contains_key(k) by {
            if map@.contains_key(k) {
                let i = choose|i: int| 0 <= i < pairs.len() && pairs[i] == (&k, &map@[k]);
                assert(all[i] == k);
            }
            if keys@.contains(k) {
                let i = choose|i: int| 0 <= i < all.len() && all[i] == k;
            }
        }
    }
    keys
}

/// Removes every listed key.
pub fn remove_all<V>(map: &mut BTreeMap<u64, V>, keys: &Vec<u64>)
    ensures
        final(map)@ == old(map)@.remove_keys(keys@.to_set()),
{
    let mut i: usize = 0;
    proof {
        assert(map@ =~= old(map)@.remove_keys(keys@.take(0).to_set()));
    }
    while i < keys.len()
        invariant
            i <= keys@.len(),
            map@ == old(map)@.remove_keys(keys@.take(i as int).to_set()),
        decreases keys@.len() - i,
    {
        let key: u64 = keys[i];
        map.remove(&key);
        proof {
            let done = keys@.take(i as int);
            let next = keys@.take(i + 1);
            assert(next =~= done.push(key));
            assert forall|k: u64| next.to_set().contains(k) <==> done.to_set().contains(k) || k
                == key by {
                if done.contains(k) {
                    let j = choose|j: int| 0 <= j < done.len() && done[j] == k;
                    assert(next[j] == k);
                }
                assert(next[i as int] == key);
                if next.contains(k) {
                    let j = choose|j: int| 0 <= j < next.len() && next[j] == k;
                    if j < i {
                        assert(done[j] == k);
                    }
                }
            }
            assert(map@ =~= old(map)@.remove_keys(next.to_set()));
        }
        i = i + 1;
    }
    proof {
        assert(keys@.take(i as int) =~= keys@);
    }
}

/// The members of a set, each once.
pub fn members(set: &BTreeSet<u64>) -> (list: Vec<u64>)
    ensures
        list@.no_duplicates(),
        forall|k: u64| #[trigger] list@.contains(k) <==> set@.contains(k),
{
    let mut list: Vec<u64> = Vec::new();
    let it = set.iter();
    let ghost all = it.remaining().unref();
    let ghost refs = it.remaining();
    for member in walk: it
        invariant
            walk.seq() == refs,
            all == refs.unref(),
            list@ == all.take(walk.index() as int),
            walk.index() <= all.len(),
    {
        list.push(*member);
        proof {
            assert(walk.seq()[walk.index() as int] == member);
            assert(list@ =~= all.take(walk.index() + 1));
        }
    }
    proof {
        assert(list@ =~= all);
        assert(all.to_set() == set@);
        assert forall|k: u64| #[trigger] list@.contains(k) <==> set@.contains(k) by {
            assert(all.contains(k) <==> all.to_set().contains(k));
        }
        assert forall|i: int, j: int| 0 <= i < all.len() && 0 <= j < all.len() && i != j implies all[i]
            != all[j] by {
            assert(refs[i] != refs[j]);
        }
    }
    list
}

/// Every member once, smallest first.
pub open spec fn lists_members(list: Seq<u64>, set: Set<u64>) -> bool {
    &&& forall|i: int, j: int| 0 <= i < j < list.len() ==> list[i] < list[j]
    &&& forall|k: u64| #[trigger] list.contains(k) <==> set.contains(k)
}

/// The members of a set, smallest first.
pub fn sorted_members(set: &BTreeSet<u64>) -> (sorted: Vec<u64>)
    ensures
        lists_members(sorted@, set@),
{
    let all: Vec<u64> = members(set);
    let mut sorted: Vec<u64> = Vec::new();
    let mut i: usize = 0;
    while i < all.len()
        invariant
            i <= all@.len(),
            all@.no_duplicates(),
            forall|a: int, b: int| 0 <= a < b < sorted@.len() ==> sorted@[a] < sorted@[b],
            forall|k: u64| #[trigger] sorted@.contains(k) <==> all@.take(i as int).contains(k),
        decreases all@.len() - i,
    {
        let key: u64 = all[i];
        let ghost had = sorted@;
        proof {
            assert(!all@.take(i as int).contains(key));
        }
        let mut at: usize = 0;
        while at < sorted.len() && sorted[at] < key
            invariant
                at <= sorted@.len(),
                sorted@ == had,
                forall|a: int| 0 <= a < at ==> sorted@[a] < key,
            decreases sorted@.len() - at,
        {
            at = at + 1;
        }
        sorted.insert(at, key);
        proof {
            if at < had.len() {
                assert(had.contains(had[at as int]));
            }
            assert forall|k: u64| #[trigger] sorted@.contains(k) <==> all@.take(i + 1).contains(
                k,
            ) by {
                if had.contains(k) {
                    let a = had.index_of(k);
                    assert(sorted@[if a < at { a } else { a + 1 }] == k);
                }
                if sorted@.contains(k) && k != key {
                    let a = sorted@.index_of(k);
                    assert(had[if a < at { a } else { a - 1 }] == k);
                }
                assert(sorted@[at as int] == key);
                let next = all@.take(i + 1);
                assert(next[i as int] == key);
                if all@.take(i as int).contains(k) {
                    let a = all@.take(i as int).index_of(k);
                    assert(next[a] == k);
                }
                if next.contains(k) && k != key {
                    let a = next.index_of(k);
                    assert(all@.take(i as int)[a] == k);
                }
            }
        }
        i = i + 1;
    }
    proof {
        assert(all@.take(i as int) =~= all@);
    }
    sorted
}

/// Adds every listed key to a set.
pub fn insert_each(set: &mut BTreeSet<u64>, keys: &Vec<u64>)
    ensures
        forall|k: u64| #[trigger]
            final(set)@.contains(k) <==> old(set)@.contains(k) || keys@.contains(k),
{
    let ghost before = set@;
    let mut i: usize = 0;
    while i < keys.len()
        invariant
            i <= keys@.len(),
            forall|k: u64| #[trigger]
                set@.contains(k) <==> before.contains(k) || keys@.take(i as int).contains(k),
        decreases keys@.len() - i,
    {
        let key: u64 = keys[i];
        set.insert(key);
        proof {
            lemma_take_push(keys@, i as int);
        }
        i = i + 1;
    }
    proof {
        assert(keys@.take(i as int) =~= keys@);
    }
}

/// Takes every listed key out of a set.
pub fn remove_each(set: &mut BTreeSet<u64>, keys: &Vec<u64>)
    ensures
        forall|k: u64| #[trigger]
            final(set)@.contains(k) <==> old(set)@.contains(k) && !keys@.contains(k),
{
    let ghost before = set@;
    let mut i: usize = 0;
    while i < keys.len()
        invariant
            i <= keys@.len(),
            forall|k: u64| #[trigger]
                set@.contains(k) <==> before.contains(k) && !keys@.take(i as int).contains(k),
        decreases keys@.len() - i,
    {
        let key: u64 = keys[i];
        set.remove(&key);
        proof {
            lemma_take_push(keys@, i as int);
        }
        i = i + 1;
    }
    proof {
        assert(keys@.take(i as int) =~= keys@);
    }
}

proof fn lemma_take_push(keys: Seq<u64>, i: int)
    requires
        0 <= i < keys.len(),
    ensures
        forall|k: u64| #[trigger]
            keys.take(i + 1).contains(k) <==> keys.take(i).contains(k) || k == keys[i],
{
    let done = keys.take(i);
    let next = keys.take(i + 1);
    assert forall|k: u64| #[trigger] next.contains(k) <==> done.contains(k) || k == keys[i] by {
        if done.contains(k) {
            let j = choose|j: int| 0 <= j < done.len() && done[j] == k;
            assert(next[j] == k);
        }
        assert(next[i] == keys[i]);
        if next.contains(k) {
            let j = choose|j: int| 0 <= j < next.len() && next[j] == k;
            if j < i {
                assert(done[j] == k);
            }
        }
    }
}

} // verus!
