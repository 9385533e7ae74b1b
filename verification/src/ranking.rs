//! Orders on the cards of a pool, and a sort of pool positions by them.

use vstd::prelude::*;
use vstd::seq_lib::{to_multiset_build, to_multiset_insert};
use crate::card::Card;

verus! {

/// The two orders in which the scheduler ranks cards.
#[derive(Clone, Copy, Debug, PartialEq, Eq, Structural)]
pub enum Order {
    /// Most overdue first; of cards not yet due, the one due soonest first.
    Urgency,
    /// Most lapses first, and of equally many the higher difficulty first.
    Hardness,
}

/// Whether the card at position `a` of the pool comes strictly before the
/// one at position `b`. Cards that the order does not tell apart keep the
/// order of their positions, so that of two positions one always precedes.
pub open spec fn precedes(pool: Seq<Card>, now: u64, order: Order, a: usize, b: usize) -> bool {
    let x = pool[a as int];
    let y = pool[b as int];
    match order {
        Order::Urgency => x.urgency(now) > y.urgency(now) || (x.urgency(now) == y.urgency(now)
            && a < b),
        Order::Hardness => x.lapses > y.lapses || (x.lapses == y.lapses && (x.difficulty
            > y.difficulty || (x.difficulty == y.difficulty && a < b))),
    }
}

/// No position in `items` is preceded by one that stands after it.
pub open spec fn in_order(pool: Seq<Card>, now: u64, order: Order, items: Seq<usize>) -> bool {
    forall|i: int, j: int|
        0 <= i < j < items.len() ==> !precedes(pool, now, order, #[trigger] items[j], #[trigger] items[i])
}

/// Every item is a position of the pool.
pub open spec fn within(items: Seq<usize>, len: nat) -> bool {
    forall|i: int| 0 <= i < items.len() ==> #[trigger] items[i] < len
}

/// Computes [`precedes`].
pub fn goes_before(pool: &Vec<Card>, now: u64, order: Order, a: usize, b: usize) -> (r: bool)
    requires
        a < pool.len(),
        b < pool.len(),
    ensures
        r == precedes(pool@, now, order, a, b),
{
    let x = &pool[a];
    let y = &pool[b];
    match order {
        Order::Urgency => {
            let ux: i128 = x.urgency_at(now);
            let uy: i128 = y.urgency_at(now);
            ux > uy || (ux == uy && a < b)
        },
        Order::Hardness => {
            x.lapses > y.lapses || (x.lapses == y.lapses && (x.difficulty > y.difficulty || (
            x.difficulty == y.difficulty && a < b)))
        },
    }
}

/// Sorts positions of the pool by `order`: the result holds the same
/// positions as `items`, each as often, and is in order.
pub fn sorted_by(pool: &Vec<Card>, now: u64, order: Order, items: &Vec<usize>) -> (sorted: Vec<
    usize,
>)
    requires
        within(items@, pool@.len()),
    ensures
        sorted@.to_multiset() == items@.to_multiset(),
        sorted@.len() == items@.len(),
        in_order(pool@, now, order, sorted@),
        within(sorted@, pool@.len()),
{
    let mut out: Vec<usize> = Vec::new();
    let mut i: usize = 0;
    assert(items@.take(0) =~= out@);
    while i < items.len()
        invariant
            i <= items.len(),
            within(items@, pool@.len()),
            within(out@, pool@.len()),
            out@.to_multiset() == items@.take(i as int).to_multiset(),
            out@.len() == i,
            in_order(pool@, now, order, out@),
        decreases items.len() - i,
    {
        let x: usize = items[i];
        let mut p: usize = 0;
        while p < out.len() && !goes_before(pool, now, order, x, out[p])
            invariant
                p <= out.len(),
                x < pool.len(),
                within(out@, pool@.len()),
                forall|q: int| 0 <= q < p ==> !precedes(pool@, now, order, x, #[trigger] out@[q]),
            decreases out.len() - p,
        {
            p += 1;
        }
        let ghost before = out@;
        out.insert(p, x);
        proof {
            to_multiset_insert(before, p as int, x);
            assert(items@.take(i + 1) =~= items@.take(i as int).push(x));
            to_multiset_build(items@.take(i as int), x);
            let after = out@;
            assert(after.len() == before.len() + 1);
            assert(after[p as int] == x);
            assert forall|k: int| 0 <= k < p implies after[k] == before[k] by {}
            assert forall|k: int| p < k < after.len() implies after[k] == before[k - 1] by {}
            assert forall|a: int, b: int| 0 <= a < b < after.len() implies !precedes(
                pool@,
                now,
                order,
                #[trigger] after[b],
                #[trigger] after[a],
            ) by {
                if b < p {
                    assert(after[a] == before[a] && after[b] == before[b]);
                } else if b == p {
                    assert(after[a] == before[a]);
                } else if a == p {
                    assert(after[b] == before[b - 1]);
                    if b - 1 > p {
                        assert(!precedes(pool@, now, order, before[b - 1], before[p as int]));
                    }
                } else if a < p {
                    assert(after[a] == before[a] && after[b] == before[b - 1]);
                } else {
                    assert(after[a] == before[a - 1] && after[b] == before[b - 1]);
                }
            }
        }
        i += 1;
    }
    assert(items@.take(items.len() as int) =~= items@);
    out
}

} // verus!
