//! Order of the arrows of a chart: ascending by spawn time, arrows with the
//! same spawn time in the order in which the chart lists them.

use vstd::prelude::*;

use crate::types::ArrowTime;

verus! {

/// The predicate that holds of the arrows that spawn at tick `t`.
pub open spec fn spawns_at(t: int) -> spec_fn(ArrowTime) -> bool {
    |a: ArrowTime| a.spawn_time == t
}

/// No arrow of `s` spawns later than an arrow behind it.
pub open spec fn sorted_by_spawn_time(s: Seq<ArrowTime>) -> bool {
    forall|i: int, j: int| 0 <= i < j < s.len() ==> s[i].spawn_time <= s[j].spawn_time
}

/// `sorted` holds the arrows of `given` in ascending order of spawn time, and
/// the arrows of any one spawn time as `given` lists them.
pub open spec fn is_stable_sort(sorted: Seq<ArrowTime>, given: Seq<ArrowTime>) -> bool {
    &&& sorted.len() == given.len()
    &&& sorted_by_spawn_time(sorted)
    &&& forall|t: int| #[trigger] sorted.filter(spawns_at(t)) == given.filter(spawns_at(t))
}

/// Putting `x` into a sorted sequence behind the last arrow that spawns no
/// later keeps the sequence a stable sort of what it held, followed by `x`.
pub proof fn lemma_insert_keeps_stable_sort(
    sorted: Seq<ArrowTime>,
    given: Seq<ArrowTime>,
    x: ArrowTime,
    at: int,
)
    requires
        is_stable_sort(sorted, given),
        0 <= at <= sorted.len(),
        forall|k: int| 0 <= k < at ==> sorted[k].spawn_time <= x.spawn_time,
        forall|k: int| at <= k < sorted.len() ==> sorted[k].spawn_time > x.spawn_time,
    ensures
        is_stable_sort(sorted.insert(at, x), given.push(x)),
{
    let out = sorted.insert(at, x);
    let front = sorted.take(at);
    let back = sorted.skip(at);
    assert(out =~= front + seq![x] + back);
    assert(sorted =~= front + back);
    assert forall|t: int| #[trigger] out.filter(spawns_at(t)) == given.push(x).filter(
        spawns_at(t),
    ) by {
        let p = spawns_at(t);
        Seq::filter_distributes_over_add(front + seq![x], back, p);
        Seq::filter_distributes_over_add(front, seq![x], p);
        Seq::filter_distributes_over_add(front, back, p);
        assert(seq![x] =~= Seq::<ArrowTime>::empty().push(x));
        Seq::<ArrowTime>::empty().lemma_filter_push(x, p);
        assert(Seq::<ArrowTime>::empty().filter(p) =~= Seq::<ArrowTime>::empty()) by {
            Seq::<ArrowTime>::empty().lemma_filter_len(p);
        }
        given.lemma_filter_push(x, p);
        assert(sorted.filter(p) == given.filter(p));
        if p(x) {
            assert(back.all(|a: ArrowTime| !p(a)));
            back.lemma_all_neg_filter_empty(p);
            assert(back.filter(p) =~= Seq::<ArrowTime>::empty());
            assert(out.filter(p) =~= front.filter(p).push(x));
            assert(sorted.filter(p) =~= front.filter(p));
        } else {
            assert(out.filter(p) =~= front.filter(p) + back.filter(p));
        }
    }
}

/// Two sorted sequences of the same length that list the arrows of each
/// spawn time alike are the same sequence.
pub proof fn lemma_sorted_with_same_groups_are_equal(a: Seq<ArrowTime>, b: Seq<ArrowTime>)
    requires
        a.len() == b.len(),
        sorted_by_spawn_time(a),
        sorted_by_spawn_time(b),
        forall|t: int| #[trigger] a.filter(spawns_at(t)) == b.filter(spawns_at(t)),
    ensures
        a == b,
    decreases a.len(),
{
    if a.len() == 0 {
        assert(a =~= b);
    } else {
        let x = a.last();
        let y = b.last();
        let t = x.spawn_time as int;
        let u = y.spawn_time as int;
        let a0 = a.drop_last();
        let b0 = b.drop_last();
        assert(a0.push(x) =~= a);
        assert(b0.push(y) =~= b);
        a0.lemma_filter_push(x, spawns_at(t));
        b0.lemma_filter_push(y, spawns_at(u));
        // The last arrow of each sequence occurs in the other, so neither
        // spawns later than the other.
        assert(u <= t) by {
            let group = b.filter(spawns_at(u));
            assert(group.last() == y);
            assert(a.filter(spawns_at(u)) == group);
            assert(a.filter(spawns_at(u)).contains(y));
            a.lemma_filter_contains_rev(spawns_at(u), y);
            let i = choose|i: int| 0 <= i < a.len() && a[i] == y;
            assert(a[i].spawn_time <= a[a.len() - 1].spawn_time);
        }
        assert(t <= u) by {
            let group = a.filter(spawns_at(t));
            assert(group.last() == x);
            assert(b.filter(spawns_at(t)) == group);
            assert(b.filter(spawns_at(t)).contains(x));
            b.lemma_filter_contains_rev(spawns_at(t), x);
            let i = choose|i: int| 0 <= i < b.len() && b[i] == x;
            assert(b[i].spawn_time <= b[b.len() - 1].spawn_time);
        }
        assert(x == y) by {
            assert(a.filter(spawns_at(t)).last() == x);
            assert(b.filter(spawns_at(t)).last() == y);
        }
        assert forall|s: int| #[trigger] a0.filter(spawns_at(s)) == b0.filter(spawns_at(s)) by {
            a0.lemma_filter_push(x, spawns_at(s));
            b0.lemma_filter_push(x, spawns_at(s));
            assert(a.filter(spawns_at(s)) == b.filter(spawns_at(s)));
            if s == t {
                let p = a0.filter(spawns_at(s));
                let q = b0.filter(spawns_at(s));
                assert(p.push(x).drop_last() =~= p);
                assert(q.push(x).drop_last() =~= q);
            }
        }
        assert forall|i: int, j: int| 0 <= i < j < a0.len() implies a0[i].spawn_time
            <= a0[j].spawn_time by {
            assert(a0[i] == a[i] && a0[j] == a[j]);
        }
        assert forall|i: int, j: int| 0 <= i < j < b0.len() implies b0[i].spawn_time
            <= b0[j].spawn_time by {
            assert(b0[i] == b[i] && b0[j] == b[j]);
        }
        lemma_sorted_with_same_groups_are_equal(a0, b0);
    }
}

/// The stable sort of a sequence that is sorted already is that sequence.
pub proof fn lemma_stable_sort_keeps_sorted(sorted: Seq<ArrowTime>, given: Seq<ArrowTime>)
    requires
        is_stable_sort(sorted, given),
        sorted_by_spawn_time(given),
    ensures
        sorted == given,
{
    lemma_sorted_with_same_groups_are_equal(sorted, given);
}

} // verus!
