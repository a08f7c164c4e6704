//! The order of the board: departures by countdown, the soonest first,
//! departures with the same countdown in the order in which the feed gave
//! them.

use crate::model::{Departure, DepartureView};
use vstd::prelude::*;

verus! {

/// Countdowns never decrease along the sequence.
pub open spec fn is_sorted(s: Seq<DepartureView>) -> bool {
    forall|i: int, j: int| 0 <= i <= j < s.len() ==> s[i].countdown <= s[j].countdown
}

/// The departures that have the countdown `c`.
pub open spec fn has_countdown(c: int) -> spec_fn(DepartureView) -> bool {
    |d: DepartureView| d.countdown == c
}

/// Where `x` goes in the sorted sequence `s`: behind the last departure that
/// is due no later than `x`.
pub open spec fn insert_point(s: Seq<DepartureView>, x: DepartureView) -> int
    decreases s.len(),
{
    if s.len() == 0 || s.last().countdown <= x.countdown {
        s.len() as int
    } else {
        insert_point(s.drop_last(), x)
    }
}

/// The departures of `s` by countdown, those with the same countdown in
/// the order they have in `s`.
pub open spec fn sorted_by_countdown(s: Seq<DepartureView>) -> Seq<DepartureView>
    decreases s.len(),
{
    if s.len() == 0 {
        s
    } else {
        let head = sorted_by_countdown(s.drop_last());
        head.insert(insert_point(head, s.last()), s.last())
    }
}

proof fn lemma_insert_point(s: Seq<DepartureView>, x: DepartureView)
    requires
        is_sorted(s),
    ensures
        0 <= insert_point(s, x) <= s.len(),
        forall|i: int| 0 <= i < insert_point(s, x) ==> (#[trigger] s[i]).countdown <= x.countdown,
        forall|i: int|
            insert_point(s, x) <= i < s.len() ==> (#[trigger] s[i]).countdown > x.countdown,
    decreases s.len(),
{
    if s.len() == 0 {
    } else if s.last().countdown <= x.countdown {
        assert forall|i: int| 0 <= i < s.len() implies (#[trigger] s[i]).countdown
            <= x.countdown by {
            assert(s[i].countdown <= s[s.len() - 1].countdown);
        }
    } else {
        let rest = s.drop_last();
        assert(is_sorted(rest)) by {
            assert forall|i: int, j: int| 0 <= i <= j < rest.len() implies rest[i].countdown
                <= rest[j].countdown by {
                assert(s[i].countdown <= s[j].countdown);
            }
        }
        lemma_insert_point(rest, x);
        let p = insert_point(rest, x);
        assert forall|i: int| 0 <= i < p implies (#[trigger] s[i]).countdown <= x.countdown by {
            assert(rest[i] == s[i]);
        }
        assert forall|i: int| p <= i < s.len() implies (#[trigger] s[i]).countdown
            > x.countdown by {
            if i < rest.len() {
                assert(rest[i] == s[i]);
            }
        }
    }
}

proof fn lemma_filter_single(x: DepartureView, pred: spec_fn(DepartureView) -> bool)
    ensures
        seq![x].filter(pred) == if pred(x) {
            seq![x]
        } else {
            Seq::<DepartureView>::empty()
        },
{
    reveal_with_fuel(Seq::filter, 2);
    assert(seq![x].drop_last() =~= Seq::<DepartureView>::empty());
    assert(Seq::<DepartureView>::empty().push(x) =~= seq![x]);
}

proof fn lemma_filter_push(s: Seq<DepartureView>, x: DepartureView, pred: spec_fn(DepartureView) -> bool)
    ensures
        s.push(x).filter(pred) == if pred(x) {
            s.filter(pred).push(x)
        } else {
            s.filter(pred)
        },
{
    reveal(Seq::filter);
    assert(s.push(x).drop_last() =~= s);
}

proof fn lemma_filter_nothing(s: Seq<DepartureView>, pred: spec_fn(DepartureView) -> bool)
    requires
        forall|i: int| 0 <= i < s.len() ==> !pred(#[trigger] s[i]),
    ensures
        s.filter(pred) == Seq::<DepartureView>::empty(),
    decreases s.len(),
{
    reveal(Seq::filter);
    if s.len() > 0 {
        let rest = s.drop_last();
        assert forall|i: int| 0 <= i < rest.len() implies !pred(#[trigger] rest[i]) by {
            assert(rest[i] == s[i]);
        }
        lemma_filter_nothing(rest, pred);
    } else {
        assert(s =~= Seq::<DepartureView>::empty());
    }
}

/// Sorting keeps the number of departures.
pub proof fn lemma_sort_keeps_length(s: Seq<DepartureView>)
    ensures
        sorted_by_countdown(s).len() == s.len(),
    decreases s.len(),
{
    if s.len() > 0 {
        lemma_sort_keeps_length(s.drop_last());
        lemma_sort_is_sorted(s.drop_last());
        lemma_insert_point(sorted_by_countdown(s.drop_last()), s.last());
    }
}

/// After sorting, no departure stands before one that is due sooner.
pub proof fn lemma_sort_is_sorted(s: Seq<DepartureView>)
    ensures
        is_sorted(sorted_by_countdown(s)),
    decreases s.len(),
{
    if s.len() > 0 {
        let head = sorted_by_countdown(s.drop_last());
        lemma_sort_is_sorted(s.drop_last());
        lemma_insert_point(head, s.last());
    }
}

/// Sorting neither drops nor adds a departure.
pub proof fn lemma_sort_is_permutation(s: Seq<DepartureView>)
    ensures
        sorted_by_countdown(s).to_multiset() == s.to_multiset(),
    decreases s.len(),
{
    broadcast use vstd::seq_lib::group_to_multiset_ensures;

    if s.len() > 0 {
        let head = sorted_by_countdown(s.drop_last());
        lemma_sort_is_permutation(s.drop_last());
        lemma_sort_is_sorted(s.drop_last());
        lemma_insert_point(head, s.last());
        assert(s.drop_last().push(s.last()) =~= s);
    } else {
        assert(sorted_by_countdown(s) =~= s);
    }
}

/// Sorting is stable: the departures with one countdown keep the order in
/// which they came.
pub proof fn lemma_sort_is_stable(s: Seq<DepartureView>, c: int)
    ensures
        sorted_by_countdown(s).filter(has_countdown(c)) == s.filter(has_countdown(c)),
    decreases s.len(),
{
    let pred = has_countdown(c);
    if s.len() > 0 {
        let init = s.drop_last();
        let head = sorted_by_countdown(init);
        let x = s.last();
        let p = insert_point(head, x);
        lemma_sort_is_stable(init, c);
        lemma_sort_is_sorted(init);
        lemma_insert_point(head, x);
        let front = head.take(p);
        let back = head.skip(p);
        assert(sorted_by_countdown(s) == head.insert(p, x));
        assert(head.insert(p, x) =~= front + seq![x] + back);
        assert(head =~= front + back);
        assert(init.push(x) =~= s);
        lemma_filter_push(init, x, pred);
        lemma_filter_single(x, pred);
        Seq::filter_distributes_over_add(front + seq![x], back, pred);
        Seq::filter_distributes_over_add(front, seq![x], pred);
        Seq::filter_distributes_over_add(front, back, pred);
        let ff = front.filter(pred);
        let bf = back.filter(pred);
        assert(head.filter(pred) == ff + bf);
        assert(sorted_by_countdown(s).filter(pred) == ff + seq![x].filter(pred) + bf);
        if pred(x) {
            assert forall|i: int| 0 <= i < back.len() implies !pred(#[trigger] back[i]) by {
                assert(back[i] == head[p + i]);
            }
            lemma_filter_nothing(back, pred);
            assert(ff + seq![x] + bf =~= (ff + bf).push(x));
        } else {
            assert(ff + Seq::<DepartureView>::empty() + bf =~= ff + bf);
        }
    } else {
        assert(sorted_by_countdown(s) =~= s);
    }
}

proof fn lemma_last_countdown_is_greatest(a: Seq<DepartureView>, c: int)
    requires
        is_sorted(a),
        a.filter(has_countdown(c)).len() > 0,
    ensures
        a.len() > 0,
        c <= a.last().countdown,
{
    let pred = has_countdown(c);
    let e = a.filter(pred)[0];
    a.lemma_filter_pred(pred, 0);
    assert(a.filter(pred).contains(e));
    a.lemma_filter_contains_rev(pred, e);
    let k = choose|k: int| 0 <= k < a.len() && a[k] == e;
    assert(a[k].countdown <= a[a.len() - 1].countdown);
}

proof fn lemma_filter_of_last(a: Seq<DepartureView>, c: int)
    requires
        a.len() > 0,
    ensures
        a.filter(has_countdown(c)) == if a.last().countdown == c {
            a.drop_last().filter(has_countdown(c)).push(a.last())
        } else {
            a.drop_last().filter(has_countdown(c))
        },
{
    assert(a.drop_last().push(a.last()) =~= a);
    lemma_filter_push(a.drop_last(), a.last(), has_countdown(c));
}

/// The order of the board is the only one: two sorted sequences that hold,
/// for every countdown, the same departures in the same order are equal.
/// So a sequence that is sorted and keeps the feed's order among equal
/// countdowns is the one that sorting gives.
pub proof fn lemma_sorted_and_stable_is_unique(a: Seq<DepartureView>, b: Seq<DepartureView>)
    requires
        is_sorted(a),
        is_sorted(b),
        forall|c: int| #[trigger] a.filter(has_countdown(c)) == b.filter(has_countdown(c)),
    ensures
        a == b,
    decreases a.len(),
{
    if a.len() == 0 {
        if b.len() > 0 {
            let c = b[0].countdown as int;
            b.lemma_filter_contains(has_countdown(c), 0);
            lemma_filter_nothing(a, has_countdown(c));
            assert(a.filter(has_countdown(c)) == b.filter(has_countdown(c)));
        }
        assert(a =~= b);
    } else {
        let m = a.last().countdown as int;
        lemma_filter_of_last(a, m);
        assert(a.filter(has_countdown(m)) == b.filter(has_countdown(m)));
        lemma_last_countdown_is_greatest(b, m);
        let n = b.last().countdown as int;
        lemma_filter_of_last(b, n);
        assert(a.filter(has_countdown(n)) == b.filter(has_countdown(n)));
        lemma_last_countdown_is_greatest(a, n);
        assert(m == n);
        assert(a.last() == a.filter(has_countdown(m)).last());
        assert(b.last() == b.filter(has_countdown(m)).last());
        let init_a = a.drop_last();
        let init_b = b.drop_last();
        assert(is_sorted(init_a)) by {
            assert forall|i: int, j: int| 0 <= i <= j < init_a.len() implies init_a[i].countdown
                <= init_a[j].countdown by {
                assert(a[i].countdown <= a[j].countdown);
            }
        }
        assert(is_sorted(init_b)) by {
            assert forall|i: int, j: int| 0 <= i <= j < init_b.len() implies init_b[i].countdown
                <= init_b[j].countdown by {
                assert(b[i].countdown <= b[j].countdown);
            }
        }
        assert forall|c: int| #[trigger]
            init_a.filter(has_countdown(c)) == init_b.filter(has_countdown(c)) by {
            lemma_filter_of_last(a, c);
            lemma_filter_of_last(b, c);
            assert(a.filter(has_countdown(c)) == b.filter(has_countdown(c)));
            if c == m {
                let fa = init_a.filter(has_countdown(c));
                let fb = init_b.filter(has_countdown(c));
                assert(fa.push(a.last()).drop_last() =~= fa);
                assert(fb.push(b.last()).drop_last() =~= fb);
            }
        }
        lemma_sorted_and_stable_is_unique(init_a, init_b);
        assert(a =~= init_a.push(a.last()));
        assert(b =~= init_b.push(b.last()));
    }
}

/// Sorts the departures by countdown, the soonest first. Departures with
/// the same countdown keep their order.
pub fn sort_departures(departures: &mut Vec<Departure>)
    ensures
        final(departures).deep_view() == sorted_by_countdown(old(departures).deep_view()),
        is_sorted(final(departures).deep_view()),
        final(departures).len() == old(departures).len(),
        forall|c: int|
            #[trigger] final(departures).deep_view().filter(has_countdown(c)) == old(
                departures,
            ).deep_view().filter(has_countdown(c)),
{
    let ghost input = departures.deep_view();
    let n: usize = departures.len();
    let mut i: usize = 0;
    assert(departures.deep_view().take(0) =~= sorted_by_countdown(input.take(0)));
    while i < n
        invariant
            i <= n,
            n == departures.len(),
            n == input.len(),
            departures.deep_view().take(i as int) == sorted_by_countdown(input.take(i as int)),
            departures.deep_view().skip(i as int) == input.skip(i as int),
        decreases n - i,
    {
        let ghost before = departures.deep_view();
        let ghost head = before.take(i as int);
        let x: Departure = departures.remove(i);
        assert(x@ == input[i as int]) by {
            assert(before.skip(i as int)[0] == input.skip(i as int)[0]);
        }
        assert(departures.deep_view() =~= before.remove(i as int));
        let mut p: usize = i;
        assert(head.take(p as int) =~= head);
        while p > 0 && departures[p - 1].countdown > x.countdown
            invariant
                p <= i,
                i < n,
                departures.len() == n - 1,
                head.len() == i,
                departures.deep_view().take(i as int) == head,
                insert_point(head, x@) == insert_point(head.take(p as int), x@),
            decreases p,
        {
            assert(head.take(p as int).last() == departures.deep_view().take(i as int)[p - 1]);
            assert(head.take(p as int).drop_last() =~= head.take(p - 1));
            p -= 1;
        }
        assert(insert_point(head, x@) == p) by {
            if p > 0 {
                assert(head.take(p as int).last() == departures.deep_view().take(i as int)[p - 1]);
            }
        }
        let ghost after_removal = departures.deep_view();
        departures.insert(p, x);
        proof {
            let now = departures.deep_view();
            assert(now =~= after_removal.insert(p as int, x@));
            assert(input.take(i + 1).drop_last() =~= input.take(i as int));
            assert(input.take(i + 1).last() == x@);
            assert(now.take(i + 1) =~= head.insert(p as int, x@));
            assert(now.skip(i + 1) =~= input.skip(i + 1)) by {
                let tail = now.skip(i + 1);
                let rest = input.skip(i + 1);
                assert forall|k: int| 0 <= k < n - (i + 1) implies #[trigger] tail[k] == rest[k] by {
                    assert(now[i + 1 + k] == before[i + 1 + k]);
                    assert(before.skip(i as int)[k + 1] == input.skip(i as int)[k + 1]);
                }
            }
        }
        i += 1;
    }
    proof {
        assert(departures.deep_view().take(n as int) =~= departures.deep_view());
        assert(input.take(n as int) =~= input);
        lemma_sort_is_sorted(input);
        assert forall|c: int|
            #[trigger] departures.deep_view().filter(has_countdown(c)) == input.filter(
                has_countdown(c),
            ) by {
            lemma_sort_is_stable(input, c);
        }
    }
}

} // verus!
