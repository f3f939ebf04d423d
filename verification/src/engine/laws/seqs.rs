//! Facts about filtered sequences that the laws share.

use vstd::prelude::*;

verus! {

/// What a filter keeps: exactly the members it accepts.
pub proof fn lemma_filter_members<T>(s: Seq<T>, keep: spec_fn(T) -> bool)
    ensures
        forall|x: T| #[trigger] s.filter(keep).contains(x) <==> s.contains(x) && keep(x),
    decreases s.len(),
{
    reveal(Seq::filter);
    if s.len() > 0 {
        let front = s.drop_last();
        lemma_filter_members(front, keep);
        let kept = front.filter(keep);
        assert forall|x: T| #[trigger] s.filter(keep).contains(x) <==> s.contains(x) && keep(x) by {
            assert(s.contains(x) <==> front.contains(x) || x == s.last()) by {
                if s.contains(x) {
                    let i = choose|i: int| 0 <= i < s.len() && s[i] == x;
                    if i < s.len() - 1 {
                        assert(front[i] == x);
                    }
                }
                if front.contains(x) {
                    let i = choose|i: int| 0 <= i < front.len() && front[i] == x;
                    assert(s[i] == x);
                }
                assert(s[s.len() - 1] == s.last());
            }
            if keep(s.last()) {
                let all = kept.push(s.last());
                assert(s.filter(keep) == all);
                assert(all.contains(x) <==> kept.contains(x) || x == s.last()) by {
                    if kept.contains(x) {
                        let i = choose|i: int| 0 <= i < kept.len() && kept[i] == x;
                        assert(all[i] == x);
                    }
                    assert(all[kept.len() as int] == s.last());
                    if all.contains(x) {
                        let i = choose|i: int| 0 <= i < all.len() && all[i] == x;
                        if i < kept.len() {
                            assert(kept[i] == x);
                        }
                    }
                }
            }
        }
    }
}

/// A member and its opposite are never both kept, and none is lost: the two
/// halves of a division are as long as the whole.
pub proof fn lemma_filter_lengths<T>(
    s: Seq<T>,
    keep: spec_fn(T) -> bool,
    other: spec_fn(T) -> bool,
)
    requires
        forall|x: T| #[trigger] s.contains(x) ==> keep(x) == !other(x),
    ensures
        s.filter(keep).len() + s.filter(other).len() == s.len(),
    decreases s.len(),
{
    reveal(Seq::filter);
    if s.len() > 0 {
        let front = s.drop_last();
        assert forall|x: T| #[trigger] front.contains(x) implies keep(x) == !other(x) by {
            let i = choose|i: int| 0 <= i < front.len() && front[i] == x;
            assert(s[i] == x);
            assert(s.contains(x));
        }
        lemma_filter_lengths(front, keep, other);
        assert(s[s.len() - 1] == s.last());
        assert(s.contains(s.last()));
    }
}

} // verus!
