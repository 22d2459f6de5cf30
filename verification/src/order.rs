//! Newest first: a stable order by time.

use crate::time::{Timestamp, TimeView};
use vstd::prelude::*;

verus! {

/// Something that carries a point in time.
pub trait Dated: Sized {
    /// The point in time.
    spec fn when(&self) -> TimeView;

    /// The point in time.
    fn timestamp(&self) -> (time: Timestamp)
        ensures
            time@ == self.when(),
    ;
}

/// Nothing stands after something older than itself.
pub open spec fn descending<E: Dated>(entries: Seq<E>) -> bool {
    forall|i: int, j: int|
        0 <= i < j < entries.len() ==> !crate::time::earlier(
            (#[trigger] entries[i]).when(),
            (#[trigger] entries[j]).when(),
        )
}

/// The entries of one point in time, in their order.
pub open spec fn at_time<E: Dated>(entries: Seq<E>, time: TimeView) -> Seq<E> {
    entries.filter(|e: E| e.when() == time)
}

/// `sorted` is `entries` with the newest first; entries of one point in time keep their order.
pub open spec fn newest_first<E: Dated>(sorted: Seq<E>, entries: Seq<E>) -> bool {
    &&& descending(sorted)
    &&& forall|time: TimeView| #[trigger] at_time(sorted, time) == at_time(entries, time)
}

/// One more entry at the end shows at its own time only.
proof fn lemma_at_time_push<E: Dated>(entries: Seq<E>, e: E, time: TimeView)
    ensures
        at_time(entries.push(e), time) == (if e.when() == time {
            at_time(entries, time).push(e)
        } else {
            at_time(entries, time)
        }),
{
    reveal(Seq::filter);
    assert(entries.push(e).drop_last() =~= entries);
}

/// One more entry at the front shows at its own time only.
proof fn lemma_at_time_front<E: Dated>(e: E, entries: Seq<E>, time: TimeView)
    ensures
        at_time(seq![e] + entries, time) == (if e.when() == time {
            seq![e] + at_time(entries, time)
        } else {
            at_time(entries, time)
        }),
{
    let pick = |x: E| x.when() == time;
    Seq::filter_distributes_over_add(seq![e], entries, pick);
    lemma_at_time_push(Seq::<E>::empty(), e, time);
    assert(Seq::<E>::empty().push(e) =~= seq![e]);
    assert(at_time(Seq::<E>::empty(), time) =~= Seq::empty()) by {
        reveal(Seq::filter);
    }
    assert(Seq::<E>::empty() + at_time(entries, time) =~= at_time(entries, time));
}

/// A time that no entry has shows no entry.
proof fn lemma_at_time_none<E: Dated>(entries: Seq<E>, time: TimeView)
    requires
        forall|i: int| 0 <= i < entries.len() ==> (#[trigger] entries[i]).when() != time,
    ensures
        at_time(entries, time) == Seq::<E>::empty(),
    decreases entries.len(),
{
    reveal(Seq::filter);
    if entries.len() > 0 {
        let front = entries.drop_last();
        assert forall|i: int| 0 <= i < front.len() implies (#[trigger] front[i]).when() != time by {
            assert(entries[i].when() != time);
        }
        lemma_at_time_none(front, time);
        assert(entries[entries.len() - 1].when() != time);
    }
}

/// `entries` from back to front.
fn reversed<E>(entries: Vec<E>) -> (back: Vec<E>)
    ensures
        back@ == entries@.reverse(),
{
    let mut entries = entries;
    let mut back: Vec<E> = Vec::new();
    let ghost all = entries@;
    while entries.len() > 0
        invariant
            all.reverse() == back@ + entries@.reverse(),
        decreases entries@.len(),
    {
        let ghost left = entries@;
        match entries.pop() {
            Some(e) => {
                back.push(e);
                assert(left.reverse() =~= seq![e] + entries@.reverse());
                assert(back@ + entries@.reverse() =~= all.reverse());
            },
            None => {},
        }
    }
    assert(back@ + entries@.reverse() =~= back@);
    back
}

/// Two lists with the newest first as one; at equal times what `left` holds comes first.
fn merge<E: Dated>(left: Vec<E>, right: Vec<E>) -> (merged: Vec<E>)
    requires
        descending(left@),
        descending(right@),
    ensures
        descending(merged@),
        forall|time: TimeView| #[trigger]
            at_time(merged@, time) == at_time(left@, time) + at_time(right@, time),
{
    let mut left = left;
    let mut right = right;
    let mut back: Vec<E> = Vec::new();
    let ghost l0 = left@;
    let ghost r0 = right@;
    proof {
        assert(back@.reverse() =~= Seq::empty());
        assert forall|time: TimeView| #[trigger]
            at_time(l0, time) + at_time(r0, time) == at_time(left@, time) + at_time(right@, time)
                + at_time(back@.reverse(), time) by {
            lemma_at_time_none(back@.reverse(), time);
            assert(at_time(l0, time) + at_time(r0, time) + Seq::<E>::empty() =~= at_time(l0, time)
                + at_time(r0, time));
        }
    }
    while left.len() > 0 || right.len() > 0
        invariant
            descending(left@),
            descending(right@),
            descending(back@.reverse()),
            forall|i: int, j: int|
                0 <= i < left@.len() && 0 <= j < back@.len() ==> !crate::time::earlier(
                    (#[trigger] left@[i]).when(),
                    (#[trigger] back@[j]).when(),
                ),
            forall|i: int, j: int|
                0 <= i < right@.len() && 0 <= j < back@.len() ==> !crate::time::earlier(
                    (#[trigger] right@[i]).when(),
                    (#[trigger] back@[j]).when(),
                ),
            forall|time: TimeView| #[trigger]
                at_time(l0, time) + at_time(r0, time) == at_time(left@, time) + at_time(
                    right@,
                    time,
                ) + at_time(back@.reverse(), time),
        decreases left@.len() + right@.len(),
    {
        let from_right = if left.len() == 0 {
            true
        } else if right.len() == 0 {
            false
        } else {
            !left[left.len() - 1].timestamp().is_before(&right[right.len() - 1].timestamp())
        };
        let ghost l1 = left@;
        let ghost r1 = right@;
        let ghost b1 = back@;
        if from_right {
            match right.pop() {
                Some(e) => {
                    back.push(e);
                    proof {
                        assert(r1 =~= right@.push(e));
                        assert(back@.reverse() =~= seq![e] + b1.reverse());
                        assert forall|time: TimeView| #[trigger]
                            at_time(l0, time) + at_time(r0, time) == at_time(left@, time)
                                + at_time(right@, time) + at_time(back@.reverse(), time) by {
                            lemma_at_time_push(right@, e, time);
                            lemma_at_time_front(e, b1.reverse(), time);
                            assert(at_time(l1, time) + at_time(r1, time) + at_time(
                                b1.reverse(),
                                time,
                            ) =~= at_time(left@, time) + at_time(right@, time) + at_time(
                                back@.reverse(),
                                time,
                            ));
                        }
                    }
                },
                None => {},
            }
        } else {
            match left.pop() {
                Some(e) => {
                    back.push(e);
                    proof {
                        assert(l1 =~= left@.push(e));
                        assert(back@.reverse() =~= seq![e] + b1.reverse());
                        assert forall|time: TimeView| #[trigger]
                            at_time(l0, time) + at_time(r0, time) == at_time(left@, time)
                                + at_time(right@, time) + at_time(back@.reverse(), time) by {
                            lemma_at_time_push(left@, e, time);
                            lemma_at_time_front(e, b1.reverse(), time);
                            if e.when() == time {
                                lemma_at_time_none(right@, time);
                            }
                            assert(at_time(l1, time) + at_time(r1, time) + at_time(
                                b1.reverse(),
                                time,
                            ) =~= at_time(left@, time) + at_time(right@, time) + at_time(
                                back@.reverse(),
                                time,
                            ));
                        }
                    }
                },
                None => {},
            }
        }
    }
    let merged = reversed(back);
    proof {
        assert forall|time: TimeView| #[trigger]
            at_time(merged@, time) == at_time(l0, time) + at_time(r0, time) by {
            lemma_at_time_none(left@, time);
            lemma_at_time_none(right@, time);
            assert(at_time(l0, time) + at_time(r0, time) == Seq::<E>::empty() + Seq::<E>::empty()
                + at_time(merged@, time));
            assert(Seq::<E>::empty() + Seq::<E>::empty() + at_time(merged@, time) =~= at_time(
                merged@,
                time,
            ));
        }
    }
    merged
}

/// `entries` with the newest first; entries of one point in time keep their order.
pub fn sort_newest_first<E: Dated>(entries: Vec<E>) -> (sorted: Vec<E>)
    ensures
        newest_first(sorted@, entries@),
    decreases entries@.len(),
{
    if entries.len() <= 1 {
        return entries;
    }
    let ghost all = entries@;
    let mut front = entries;
    let half = front.len() / 2;
    let back = front.split_off(half);
    let ghost first = front@;
    let ghost second = back@;
    let left = sort_newest_first(front);
    let right = sort_newest_first(back);
    let sorted = merge(left, right);
    proof {
        assert(all =~= first + second);
        assert forall|time: TimeView| #[trigger]
            at_time(sorted@, time) == at_time(all, time) by {
            Seq::filter_distributes_over_add(first, second, |e: E| e.when() == time);
            assert(at_time(left@, time) == at_time(first, time));
            assert(at_time(right@, time) == at_time(second, time));
        }
    }
    sorted
}

/// What shows at the time of the last entry ends with that entry.
proof fn lemma_at_time_of_last<E: Dated>(entries: Seq<E>)
    requires
        entries.len() > 0,
    ensures
        at_time(entries, entries.last().when()) == at_time(
            entries.drop_last(),
            entries.last().when(),
        ).push(entries.last()),
{
    assert(entries =~= entries.drop_last().push(entries.last()));
    lemma_at_time_push(entries.drop_last(), entries.last(), entries.last().when());
}

/// Where something shows at a time, some entry has that time.
proof fn lemma_at_time_some<E: Dated>(entries: Seq<E>, time: TimeView)
    requires
        at_time(entries, time).len() > 0,
    ensures
        exists|i: int| 0 <= i < entries.len() && (#[trigger] entries[i]).when() == time,
{
    if forall|i: int| 0 <= i < entries.len() ==> (#[trigger] entries[i]).when() != time {
        lemma_at_time_none(entries, time);
    }
}

/// There is one way to put the newest first: two results for the same entries are equal.
pub proof fn law_newest_first_is_unique<E: Dated>(a: Seq<E>, b: Seq<E>, entries: Seq<E>)
    requires
        newest_first(a, entries),
        newest_first(b, entries),
    ensures
        a == b,
{
    assert forall|time: TimeView| #[trigger] at_time(a, time) == at_time(b, time) by {
        assert(at_time(b, time) == at_time(entries, time));
    }
    lemma_descending_is_unique(a, b);
}

/// Two descending lists that show the same at every time are equal.
proof fn lemma_descending_is_unique<E: Dated>(a: Seq<E>, b: Seq<E>)
    requires
        descending(a),
        descending(b),
        forall|time: TimeView| #[trigger] at_time(a, time) == at_time(b, time),
    ensures
        a == b,
    decreases a.len(),
{
    if a.len() == 0 {
        if b.len() > 0 {
            let time = b.last().when();
            lemma_at_time_of_last(b);
            assert(at_time(a, time) == at_time(b, time));
            lemma_at_time_some(a, time);
        }
        assert(a =~= b);
    } else {
        let ta = a.last().when();
        lemma_at_time_of_last(a);
        assert(at_time(a, ta) == at_time(b, ta));
        lemma_at_time_some(b, ta);
        let k = choose|k: int| 0 <= k < b.len() && (#[trigger] b[k]).when() == ta;
        let tb = b.last().when();
        lemma_at_time_of_last(b);
        assert(at_time(a, tb) == at_time(b, tb));
        lemma_at_time_some(a, tb);
        let m = choose|m: int| 0 <= m < a.len() && (#[trigger] a[m]).when() == tb;
        assert(ta == tb) by {
            if k < b.len() - 1 {
                assert(!crate::time::earlier(b[k].when(), b[b.len() - 1].when()));
            }
            if m < a.len() - 1 {
                assert(!crate::time::earlier(a[m].when(), a[a.len() - 1].when()));
            }
        }
        assert(a.last() == at_time(a, ta).last());
        assert(b.last() == at_time(b, ta).last());
        let a1 = a.drop_last();
        let b1 = b.drop_last();
        assert(a =~= a1.push(a.last()));
        assert(b =~= b1.push(b.last()));
        assert forall|time: TimeView| #[trigger] at_time(a1, time) == at_time(b1, time) by {
            lemma_at_time_push(a1, a.last(), time);
            lemma_at_time_push(b1, b.last(), time);
            assert(at_time(a, time) == at_time(b, time));
            if ta == time {
                assert(at_time(a1, time) =~= at_time(a, time).drop_last());
                assert(at_time(b1, time) =~= at_time(b, time).drop_last());
            }
        }
        lemma_descending_is_unique(a1, b1);
    }
}

/// An entry occurs as often among those of its time as among all.
proof fn lemma_count_at_time<E: Dated>(entries: Seq<E>, e: E)
    ensures
        at_time(entries, e.when()).to_multiset().count(e) == entries.to_multiset().count(e),
    decreases entries.len(),
{
    broadcast use vstd::seq_lib::group_to_multiset_ensures;

    if entries.len() > 0 {
        let front = entries.drop_last();
        let last = entries.last();
        assert(entries =~= front.push(last));
        lemma_count_at_time(front, e);
        lemma_at_time_push(front, last, e.when());
    } else {
        assert(at_time(entries, e.when()) =~= entries) by {
            reveal(Seq::filter);
        }
    }
}

/// Putting the newest first neither adds nor loses an entry.
pub proof fn law_newest_first_keeps_entries<E: Dated>(sorted: Seq<E>, entries: Seq<E>)
    requires
        newest_first(sorted, entries),
    ensures
        sorted.to_multiset() == entries.to_multiset(),
        sorted.len() == entries.len(),
{
    broadcast use vstd::seq_lib::group_to_multiset_ensures;

    assert forall|e: E| sorted.to_multiset().count(e) == entries.to_multiset().count(e) by {
        lemma_count_at_time(sorted, e);
        lemma_count_at_time(entries, e);
        assert(at_time(sorted, e.when()) == at_time(entries, e.when()));
    }
    assert(sorted.to_multiset() =~= entries.to_multiset());
    assert(sorted.len() == sorted.to_multiset().len());
    assert(entries.len() == entries.to_multiset().len());
}

/// Newest first, by the clock: nothing stands behind an entry of an earlier second, nor, within a
/// second, behind one of fewer nanoseconds.
pub proof fn law_newest_first_descends<E: Dated>(sorted: Seq<E>, entries: Seq<E>, i: int, j: int)
    requires
        newest_first(sorted, entries),
        0 <= i < j < sorted.len(),
    ensures
        sorted[i].when().secs >= sorted[j].when().secs,
        sorted[i].when().secs == sorted[j].when().secs ==> sorted[i].when().nanos
            >= sorted[j].when().nanos,
{
    assert(!crate::time::earlier(sorted[i].when(), sorted[j].when()));
}

/// Entries of one point in time keep their order, and all of them stay: `pick` picks them.
pub proof fn law_newest_first_is_stable<E: Dated>(
    sorted: Seq<E>,
    entries: Seq<E>,
    time: TimeView,
    pick: spec_fn(E) -> bool,
)
    requires
        newest_first(sorted, entries),
        forall|e: E| #[trigger] pick(e) <==> e.when() == time,
    ensures
        sorted.filter(pick) == entries.filter(pick),
{
    lemma_picked_at_time(sorted, time, pick);
    lemma_picked_at_time(entries, time, pick);
    assert(at_time(sorted, time) == at_time(entries, time));
}

/// What is picked by its time is what shows at that time.
proof fn lemma_picked_at_time<E: Dated>(entries: Seq<E>, time: TimeView, pick: spec_fn(E) -> bool)
    requires
        forall|e: E| #[trigger] pick(e) <==> e.when() == time,
    ensures
        entries.filter(pick) == at_time(entries, time),
    decreases entries.len(),
{
    reveal(Seq::filter);
    if entries.len() > 0 {
        lemma_picked_at_time(entries.drop_last(), time, pick);
        lemma_at_time_push(entries.drop_last(), entries.last(), time);
        assert(entries =~= entries.drop_last().push(entries.last()));
        assert(pick(entries.last()) <==> entries.last().when() == time);
    }
}

} // verus!
