//! Composing the next batch: which cards of a pool are shown next, and in
//! what order.
//!
//! A selection is a list of positions in the pool. Due cards that are being
//! learned come before due reviews, those before new cards, of which a
//! quota limits the number; what room is left goes to cards that are not
//! yet due. Suspended cards are never chosen.

use vstd::prelude::*;
use vstd::seq_lib::{
    lemma_multiset_commutative, lemma_no_dup_in_concat, lemma_seq_concat_contains_all_elements,
    to_multiset_contains, to_multiset_len, to_multiset_remove,
};
use rand::rngs::StdRng;
use crate::card::{Card, CardState};
use crate::chance::shuffle_indices;
use crate::ranking::{in_order, precedes, sorted_by, within, Order};

verus! {

/// Recommended number of cards in a batch.
pub const DEFAULT_BATCH_SIZE: usize = 20;

/// Recommended number of new cards in a batch.
pub const DEFAULT_NEW_QUOTA: usize = 5;

/// What a card is to the selection at a given time.
#[derive(Clone, Copy, Debug, PartialEq, Eq, Structural)]
pub enum Category {
    /// Due, and in `Learning` or `Relearning`.
    DueLearning,
    /// Due, and in `Review`.
    DueReview,
    /// Never answered.
    Fresh,
    /// Answered before and not yet due.
    Ahead,
    /// Suspended: left out of every batch.
    Suspended,
}

/// How a batch is composed.
#[derive(Clone, Copy, Debug, PartialEq, Eq, Structural)]
pub struct BatchConfig {
    /// Most cards that a batch holds.
    pub batch_size: usize,
    /// Most new cards that a batch holds.
    pub new_quota: usize,
    /// How many of the hardest cards stand in front; 0 shuffles them all.
    pub hard_first: usize,
}

impl Default for BatchConfig {
    fn default() -> (config: BatchConfig)
        ensures
            config.batch_size == DEFAULT_BATCH_SIZE,
            config.new_quota == DEFAULT_NEW_QUOTA,
            config.hard_first == 0,
    {
        BatchConfig { batch_size: DEFAULT_BATCH_SIZE, new_quota: DEFAULT_NEW_QUOTA, hard_first: 0 }
    }
}

/// An ordered list of card snapshots with a cursor.
#[derive(Debug)]
pub struct Batch {
    pub cards: Vec<Card>,
    pub current_index: usize,
}

/// Why no batch can be composed.
#[derive(Clone, Copy, Debug, PartialEq, Eq, Structural)]
pub enum SelectError {
    /// The pool holds no card at all.
    EmptyPool,
    /// Every card of the pool is suspended.
    FullySuspended,
}

/// Composes batches from a pool of cards.
pub struct BatchSelector;

/// The category of a card at time `now`.
pub open spec fn category_of(card: Card, now: u64) -> Category {
    if card.suspended {
        Category::Suspended
    } else if card.state is New {
        Category::Fresh
    } else if card.is_due(now) {
        if card.state is Review {
            Category::DueReview
        } else {
            Category::DueLearning
        }
    } else {
        Category::Ahead
    }
}

/// How many of `cards` are of `category` at time `now`.
pub open spec fn census(cards: Seq<Card>, now: u64, category: Category) -> nat
    decreases cards.len(),
{
    if cards.len() == 0 {
        0
    } else {
        census(cards.drop_last(), now, category) + if category_of(cards.last(), now)
            == category {
            1nat
        } else {
            0nat
        }
    }
}

/// The cards at the positions `picks` of the pool, in the order of `picks`.
pub open spec fn drawn(pool: Seq<Card>, picks: Seq<usize>) -> Seq<Card> {
    Seq::new(picks.len(), |i: int| pool[picks[i] as int])
}

/// The smaller of two numbers.
pub open spec fn least(a: int, b: int) -> int {
    if a <= b {
        a
    } else {
        b
    }
}

/// How many cards of `category` a batch of `size` cards with at most
/// `quota` new ones takes from the pool: each category takes what it has,
/// as far as there is room after the categories before it.
pub open spec fn planned(
    pool: Seq<Card>,
    now: u64,
    size: usize,
    quota: usize,
    category: Category,
) -> int {
    let learning = least(census(pool, now, Category::DueLearning) as int, size as int);
    let review = least(census(pool, now, Category::DueReview) as int, size - learning);
    let fresh = least(
        least(census(pool, now, Category::Fresh) as int, quota as int),
        size - learning - review,
    );
    let ahead = least(census(pool, now, Category::Ahead) as int, size - learning - review - fresh);
    match category {
        Category::DueLearning => learning,
        Category::DueReview => review,
        Category::Fresh => fresh,
        Category::Ahead => ahead,
        Category::Suspended => 0,
    }
}

/// `picks` takes from the pool what a batch should hold.
///
/// No position occurs twice and no suspended card is chosen; of each
/// category as many cards are chosen as [`planned`] says; and where a card
/// that is not new is chosen, every card of its category that precedes it
/// in urgency is chosen too. The order of `picks` plays no part.
pub open spec fn is_selection(
    pool: Seq<Card>,
    now: u64,
    size: usize,
    quota: usize,
    picks: Seq<usize>,
) -> bool {
    &&& picks.no_duplicates()
    &&& within(picks, pool.len())
    &&& forall|p: usize| #[trigger] picks.contains(p) ==> !pool[p as int].suspended
    &&& census(drawn(pool, picks), now, Category::DueLearning) == planned(
        pool,
        now,
        size,
        quota,
        Category::DueLearning,
    )
    &&& census(drawn(pool, picks), now, Category::DueReview) == planned(
        pool,
        now,
        size,
        quota,
        Category::DueReview,
    )
    &&& census(drawn(pool, picks), now, Category::Fresh) == planned(
        pool,
        now,
        size,
        quota,
        Category::Fresh,
    )
    &&& census(drawn(pool, picks), now, Category::Ahead) == planned(
        pool,
        now,
        size,
        quota,
        Category::Ahead,
    )
    &&& census(drawn(pool, picks), now, Category::Suspended) == 0
    &&& picks.len() == planned(pool, now, size, quota, Category::DueLearning) + planned(
        pool,
        now,
        size,
        quota,
        Category::DueReview,
    ) + planned(pool, now, size, quota, Category::Fresh) + planned(
        pool,
        now,
        size,
        quota,
        Category::Ahead,
    )
    &&& forall|p: usize, j: usize|
        #![trigger picks.contains(p), precedes(pool, now, Order::Urgency, j, p)]
        picks.contains(p) && j < pool.len() && category_of(pool[p as int], now)
            != Category::Fresh && category_of(pool[j as int], now) == category_of(
            pool[p as int],
            now,
        ) && precedes(pool, now, Order::Urgency, j, p) ==> picks.contains(j)
}

/// The first `pinned` positions of `order` hold cards in order of hardness,
/// and none of them is preceded in hardness by a card further back.
pub open spec fn is_pinned(pool: Seq<Card>, now: u64, order: Seq<usize>, pinned: int) -> bool {
    forall|i: int, j: int|
        0 <= i < pinned && i < j < order.len() ==> !precedes(
            pool,
            now,
            Order::Hardness,
            #[trigger] order[j],
            #[trigger] order[i],
        )
}

/// The positions of the first `upto` cards of the pool that are of
/// `category`, in rising order.
pub open spec fn members(pool: Seq<Card>, now: u64, category: Category, upto: nat) -> Seq<usize>
    decreases upto,
{
    if upto == 0 {
        Seq::empty()
    } else {
        let rest = members(pool, now, category, (upto - 1) as nat);
        if category_of(pool[upto - 1], now) == category {
            rest.push((upto - 1) as usize)
        } else {
            rest
        }
    }
}

/// `part` holds every position of the pool whose card is of `category`,
/// once each, and no other.
pub open spec fn is_part(pool: Seq<Card>, now: u64, category: Category, part: Seq<usize>) -> bool {
    &&& part.no_duplicates()
    &&& forall|k: int|
        0 <= k < part.len() ==> #[trigger] part[k] < pool.len() && category_of(
            pool[part[k] as int],
            now,
        ) == category
    &&& forall|j: usize|
        j < pool.len() && category_of(pool[j as int], now) == category ==> #[trigger] part.contains(
            j,
        )
    &&& part.len() == census(pool, now, category)
}

proof fn lemma_census_concat(a: Seq<Card>, b: Seq<Card>, now: u64, category: Category)
    ensures
        census(a + b, now, category) == census(a, now, category) + census(b, now, category),
    decreases b.len(),
{
    if b.len() == 0 {
        assert(a + b =~= a);
    } else {
        assert((a + b).drop_last() =~= a + b.drop_last());
        lemma_census_concat(a, b.drop_last(), now, category);
    }
}

proof fn lemma_census_one(card: Card, now: u64, category: Category)
    ensures
        census(seq![card], now, category) == if category_of(card, now) == category {
            1nat
        } else {
            0nat
        },
{
    assert(seq![card].drop_last() =~= Seq::<Card>::empty());
    assert(census(Seq::<Card>::empty(), now, category) == 0);
    assert(seq![card].last() == card);
}

proof fn lemma_drawn_concat(pool: Seq<Card>, a: Seq<usize>, b: Seq<usize>)
    ensures
        drawn(pool, a + b) =~= drawn(pool, a) + drawn(pool, b),
{
}

proof fn lemma_census_uniform(
    pool: Seq<Card>,
    now: u64,
    picks: Seq<usize>,
    home: Category,
    category: Category,
)
    requires
        forall|k: int|
            0 <= k < picks.len() ==> #[trigger] picks[k] < pool.len() && category_of(
                pool[picks[k] as int],
                now,
            ) == home,
    ensures
        census(drawn(pool, picks), now, category) == if category == home {
            picks.len()
        } else {
            0
        },
    decreases picks.len(),
{
    if picks.len() > 0 {
        assert(drawn(pool, picks).drop_last() =~= drawn(pool, picks.drop_last()));
        assert(drawn(pool, picks).last() == pool[picks[picks.len() - 1] as int]);
        lemma_census_uniform(pool, now, picks.drop_last(), home, category);
    }
}

proof fn lemma_census_without(
    pool: Seq<Card>,
    now: u64,
    picks: Seq<usize>,
    at: int,
    category: Category,
)
    requires
        0 <= at < picks.len(),
    ensures
        census(drawn(pool, picks), now, category) == census(
            drawn(pool, picks.remove(at)),
            now,
            category,
        ) + if category_of(pool[picks[at] as int], now) == category {
            1nat
        } else {
            0nat
        },
{
    let head = picks.take(at);
    let tail = picks.skip(at + 1);
    let one = seq![picks[at]];
    assert(picks =~= head + one + tail);
    assert(picks.remove(at) =~= head + tail);
    lemma_drawn_concat(pool, head + one, tail);
    lemma_drawn_concat(pool, head, one);
    lemma_drawn_concat(pool, head, tail);
    lemma_census_concat(drawn(pool, head) + drawn(pool, one), drawn(pool, tail), now, category);
    lemma_census_concat(drawn(pool, head), drawn(pool, one), now, category);
    lemma_census_concat(drawn(pool, head), drawn(pool, tail), now, category);
    assert(drawn(pool, one) =~= seq![pool[picks[at] as int]]);
    lemma_census_one(pool[picks[at] as int], now, category);
}

proof fn lemma_census_permuted(
    pool: Seq<Card>,
    now: u64,
    a: Seq<usize>,
    b: Seq<usize>,
    category: Category,
)
    requires
        a.to_multiset() == b.to_multiset(),
    ensures
        census(drawn(pool, a), now, category) == census(drawn(pool, b), now, category),
    decreases a.len(),
{
    to_multiset_len(a);
    to_multiset_len(b);
    if a.len() == 0 {
        assert(drawn(pool, a) =~= drawn(pool, b));
    } else {
        let last = a.len() - 1;
        let x = a[last];
        assert(a.contains(x));
        to_multiset_contains(a, x);
        to_multiset_contains(b, x);
        let at = choose|i: int| 0 <= i < b.len() && b[i] == x;
        to_multiset_remove(a, last);
        to_multiset_remove(b, at);
        lemma_census_permuted(pool, now, a.remove(last), b.remove(at), category);
        lemma_census_without(pool, now, a, last, category);
        lemma_census_without(pool, now, b, at, category);
    }
}

proof fn lemma_same_elements(a: Seq<usize>, b: Seq<usize>)
    requires
        a.to_multiset() == b.to_multiset(),
    ensures
        a.len() == b.len(),
        forall|x: usize| a.contains(x) <==> b.contains(x),
        a.no_duplicates() ==> b.no_duplicates(),
{
    to_multiset_len(a);
    to_multiset_len(b);
    assert forall|x: usize| a.contains(x) <==> b.contains(x) by {
        to_multiset_contains(a, x);
        to_multiset_contains(b, x);
    }
    if a.no_duplicates() {
        a.lemma_multiset_has_no_duplicates();
        b.lemma_multiset_has_no_duplicates_conv();
    }
}

proof fn lemma_part_permuted(
    pool: Seq<Card>,
    now: u64,
    category: Category,
    a: Seq<usize>,
    b: Seq<usize>,
)
    requires
        is_part(pool, now, category, a),
        a.to_multiset() == b.to_multiset(),
    ensures
        is_part(pool, now, category, b),
{
    lemma_same_elements(a, b);
    assert forall|k: int| 0 <= k < b.len() implies #[trigger] b[k] < pool.len() && category_of(
        pool[b[k] as int],
        now,
    ) == category by {
        assert(b.contains(b[k]));
        assert(a.contains(b[k]));
        let i = choose|i: int| 0 <= i < a.len() && a[i] == b[k];
        assert(a[i] < pool.len());
    }
}

proof fn lemma_members(pool: Seq<Card>, now: u64, category: Category, upto: nat)
    requires
        upto <= pool.len() <= usize::MAX,
    ensures
        is_part(pool.take(upto as int), now, category, members(pool, now, category, upto)),
    decreases upto,
{
    let part = members(pool, now, category, upto);
    let cards = pool.take(upto as int);
    if upto == 0 {
    } else {
        let fewer = (upto - 1) as nat;
        let rest = members(pool, now, category, fewer);
        lemma_members(pool, now, category, fewer);
        assert(cards.drop_last() =~= pool.take(fewer as int));
        assert(cards.last() == pool[upto - 1]);
        let here = (upto - 1) as usize;
        if category_of(pool[upto - 1], now) == category {
            assert(part == rest.push(here));
            assert forall|j: usize|
                j < cards.len() && category_of(cards[j as int], now)
                    == category implies #[trigger] part.contains(j) by {
                if j == here {
                    assert(part[part.len() - 1] == here);
                } else {
                    assert(rest.contains(j));
                    let i = choose|i: int| 0 <= i < rest.len() && rest[i] == j;
                    assert(part[i] == j);
                }
            }
        } else {
            assert forall|j: usize|
                j < cards.len() && category_of(cards[j as int], now)
                    == category implies #[trigger] part.contains(j) by {
                assert(rest.contains(j));
            }
        }
    }
}

proof fn lemma_prefix(
    pool: Seq<Card>,
    now: u64,
    home: Category,
    part: Seq<usize>,
    count: int,
    category: Category,
)
    requires
        is_part(pool, now, home, part),
        0 <= count <= part.len(),
    ensures
        part.take(count).no_duplicates(),
        forall|k: int|
            0 <= k < count ==> #[trigger] part.take(count)[k] < pool.len() && category_of(
                pool[part.take(count)[k] as int],
                now,
            ) == home,
        census(drawn(pool, part.take(count)), now, category) == if category == home {
            count
        } else {
            0
        },
{
    let front = part.take(count);
    assert forall|k: int| 0 <= k < count implies #[trigger] front[k] < pool.len() && category_of(
        pool[front[k] as int],
        now,
    ) == home by {
        assert(front[k] == part[k]);
    }
    lemma_census_uniform(pool, now, front, home, category);
}

proof fn lemma_prefix_priority(
    pool: Seq<Card>,
    now: u64,
    home: Category,
    sorted: Seq<usize>,
    count: int,
    p: usize,
    j: usize,
)
    requires
        is_part(pool, now, home, sorted),
        in_order(pool, now, Order::Urgency, sorted),
        0 <= count <= sorted.len(),
        sorted.take(count).contains(p),
        j < pool.len(),
        category_of(pool[j as int], now) == home,
        precedes(pool, now, Order::Urgency, j, p),
    ensures
        sorted.take(count).contains(j),
{
    let front = sorted.take(count);
    let i = choose|i: int| 0 <= i < front.len() && front[i] == p;
    assert(sorted[i] == p);
    assert(sorted.contains(j));
    let q = choose|q: int| 0 <= q < sorted.len() && sorted[q] == j;
    if q >= count {
        assert(!precedes(pool, now, Order::Urgency, sorted[q], sorted[i]));
    }
    assert(front[q] == j);
}

/// The selection that four sorted parts of the pool give: of each part its
/// first cards, as many as [`planned`] says.
pub open spec fn assembled(
    pool: Seq<Card>,
    now: u64,
    size: usize,
    quota: usize,
    learning: Seq<usize>,
    review: Seq<usize>,
    fresh: Seq<usize>,
    ahead: Seq<usize>,
) -> Seq<usize> {
    learning.take(planned(pool, now, size, quota, Category::DueLearning)) + review.take(
        planned(pool, now, size, quota, Category::DueReview),
    ) + fresh.take(planned(pool, now, size, quota, Category::Fresh)) + ahead.take(
        planned(pool, now, size, quota, Category::Ahead),
    )
}

proof fn lemma_front_member(
    pool: Seq<Card>,
    now: u64,
    home: Category,
    part: Seq<usize>,
    count: int,
    p: usize,
)
    requires
        is_part(pool, now, home, part),
        0 <= count <= part.len(),
        part.take(count).contains(p),
    ensures
        p < pool.len(),
        category_of(pool[p as int], now) == home,
{
    let front = part.take(count);
    let i = choose|i: int| 0 <= i < front.len() && front[i] == p;
    assert(part[i] == p);
}

proof fn lemma_assembled(
    pool: Seq<Card>,
    now: u64,
    size: usize,
    quota: usize,
    learning: Seq<usize>,
    review: Seq<usize>,
    fresh: Seq<usize>,
    ahead: Seq<usize>,
)
    requires
        is_part(pool, now, Category::DueLearning, learning),
        is_part(pool, now, Category::DueReview, review),
        is_part(pool, now, Category::Fresh, fresh),
        is_part(pool, now, Category::Ahead, ahead),
        in_order(pool, now, Order::Urgency, learning),
        in_order(pool, now, Order::Urgency, review),
        in_order(pool, now, Order::Urgency, ahead),
    ensures
        is_selection(
            pool,
            now,
            size,
            quota,
            assembled(pool, now, size, quota, learning, review, fresh, ahead),
        ),
{
    let nl = planned(pool, now, size, quota, Category::DueLearning);
    let nr = planned(pool, now, size, quota, Category::DueReview);
    let nf = planned(pool, now, size, quota, Category::Fresh);
    let na = planned(pool, now, size, quota, Category::Ahead);
    let l = learning.take(nl);
    let r = review.take(nr);
    let f = fresh.take(nf);
    let a = ahead.take(na);
    let lr = l + r;
    let lrf = lr + f;
    let picks = lrf + a;
    assert(picks == assembled(pool, now, size, quota, learning, review, fresh, ahead));

    assert forall|p: usize| #[trigger] picks.contains(p) implies p < pool.len() && !pool[p as int].suspended
        && (l.contains(p) || r.contains(p) || f.contains(p) || a.contains(p)) by {
        lemma_seq_concat_contains_all_elements(lrf, a, p);
        lemma_seq_concat_contains_all_elements(lr, f, p);
        lemma_seq_concat_contains_all_elements(l, r, p);
        if l.contains(p) {
            lemma_front_member(pool, now, Category::DueLearning, learning, nl, p);
        } else if r.contains(p) {
            lemma_front_member(pool, now, Category::DueReview, review, nr, p);
        } else if f.contains(p) {
            lemma_front_member(pool, now, Category::Fresh, fresh, nf, p);
        } else {
            lemma_front_member(pool, now, Category::Ahead, ahead, na, p);
        }
    }
    assert forall|k: int| 0 <= k < picks.len() implies #[trigger] picks[k] < pool.len() by {
        assert(picks.contains(picks[k]));
    }

    assert(l.no_duplicates() && r.no_duplicates() && f.no_duplicates() && a.no_duplicates());
    assert forall|i: int, j: int| 0 <= i < l.len() && 0 <= j < r.len() implies l[i] != r[j] by {
        assert(l.contains(l[i]));
        assert(r.contains(r[j]));
        lemma_front_member(pool, now, Category::DueLearning, learning, nl, l[i]);
        lemma_front_member(pool, now, Category::DueReview, review, nr, r[j]);
    }
    lemma_no_dup_in_concat(l, r);
    assert forall|i: int, j: int| 0 <= i < lr.len() && 0 <= j < f.len() implies lr[i] != f[j] by {
        assert(lr.contains(lr[i]));
        assert(f.contains(f[j]));
        lemma_seq_concat_contains_all_elements(l, r, lr[i]);
        if l.contains(lr[i]) {
            lemma_front_member(pool, now, Category::DueLearning, learning, nl, lr[i]);
        } else {
            lemma_front_member(pool, now, Category::DueReview, review, nr, lr[i]);
        }
        lemma_front_member(pool, now, Category::Fresh, fresh, nf, f[j]);
    }
    lemma_no_dup_in_concat(lr, f);
    assert forall|i: int, j: int| 0 <= i < lrf.len() && 0 <= j < a.len() implies lrf[i]
        != a[j] by {
        assert(lrf.contains(lrf[i]));
        assert(a.contains(a[j]));
        lemma_seq_concat_contains_all_elements(lr, f, lrf[i]);
        lemma_seq_concat_contains_all_elements(l, r, lrf[i]);
        if l.contains(lrf[i]) {
            lemma_front_member(pool, now, Category::DueLearning, learning, nl, lrf[i]);
        } else if r.contains(lrf[i]) {
            lemma_front_member(pool, now, Category::DueReview, review, nr, lrf[i]);
        } else {
            lemma_front_member(pool, now, Category::Fresh, fresh, nf, lrf[i]);
        }
        lemma_front_member(pool, now, Category::Ahead, ahead, na, a[j]);
    }
    lemma_no_dup_in_concat(lrf, a);

    lemma_assembled_census(pool, now, size, quota, learning, review, fresh, ahead, Category::DueLearning);
    lemma_assembled_census(pool, now, size, quota, learning, review, fresh, ahead, Category::DueReview);
    lemma_assembled_census(pool, now, size, quota, learning, review, fresh, ahead, Category::Fresh);
    lemma_assembled_census(pool, now, size, quota, learning, review, fresh, ahead, Category::Ahead);
    lemma_assembled_census(pool, now, size, quota, learning, review, fresh, ahead, Category::Suspended);

    assert forall|p: usize, j: usize|
        #![trigger picks.contains(p), precedes(pool, now, Order::Urgency, j, p)]
        picks.contains(p) && j < pool.len() && category_of(pool[p as int], now)
            != Category::Fresh && category_of(pool[j as int], now) == category_of(
            pool[p as int],
            now,
        ) && precedes(pool, now, Order::Urgency, j, p) implies picks.contains(j) by {
        lemma_seq_concat_contains_all_elements(lrf, a, j);
        lemma_seq_concat_contains_all_elements(lr, f, j);
        lemma_seq_concat_contains_all_elements(l, r, j);
        if l.contains(p) {
            lemma_front_member(pool, now, Category::DueLearning, learning, nl, p);
            lemma_prefix_priority(pool, now, Category::DueLearning, learning, nl, p, j);
        } else if r.contains(p) {
            lemma_front_member(pool, now, Category::DueReview, review, nr, p);
            lemma_prefix_priority(pool, now, Category::DueReview, review, nr, p, j);
        } else if f.contains(p) {
            lemma_front_member(pool, now, Category::Fresh, fresh, nf, p);
        } else {
            lemma_front_member(pool, now, Category::Ahead, ahead, na, p);
            lemma_prefix_priority(pool, now, Category::Ahead, ahead, na, p, j);
        }
    }
}

proof fn lemma_assembled_census(
    pool: Seq<Card>,
    now: u64,
    size: usize,
    quota: usize,
    learning: Seq<usize>,
    review: Seq<usize>,
    fresh: Seq<usize>,
    ahead: Seq<usize>,
    category: Category,
)
    requires
        is_part(pool, now, Category::DueLearning, learning),
        is_part(pool, now, Category::DueReview, review),
        is_part(pool, now, Category::Fresh, fresh),
        is_part(pool, now, Category::Ahead, ahead),
    ensures
        census(
            drawn(pool, assembled(pool, now, size, quota, learning, review, fresh, ahead)),
            now,
            category,
        ) == planned(pool, now, size, quota, category),
{
    let nl = planned(pool, now, size, quota, Category::DueLearning);
    let nr = planned(pool, now, size, quota, Category::DueReview);
    let nf = planned(pool, now, size, quota, Category::Fresh);
    let na = planned(pool, now, size, quota, Category::Ahead);
    let l = learning.take(nl);
    let r = review.take(nr);
    let f = fresh.take(nf);
    let a = ahead.take(na);
    lemma_prefix(pool, now, Category::DueLearning, learning, nl, category);
    lemma_prefix(pool, now, Category::DueReview, review, nr, category);
    lemma_prefix(pool, now, Category::Fresh, fresh, nf, category);
    lemma_prefix(pool, now, Category::Ahead, ahead, na, category);
    lemma_drawn_concat(pool, l + r + f, a);
    lemma_drawn_concat(pool, l + r, f);
    lemma_drawn_concat(pool, l, r);
    lemma_census_concat(drawn(pool, l) + drawn(pool, r) + drawn(pool, f), drawn(pool, a), now, category);
    lemma_census_concat(drawn(pool, l) + drawn(pool, r), drawn(pool, f), now, category);
    lemma_census_concat(drawn(pool, l), drawn(pool, r), now, category);
}

/// A list with the same positions as a selection, in any order, is a
/// selection too.
pub proof fn lemma_selection_permuted(
    pool: Seq<Card>,
    now: u64,
    size: usize,
    quota: usize,
    picks: Seq<usize>,
    order: Seq<usize>,
)
    requires
        is_selection(pool, now, size, quota, picks),
        picks.to_multiset() == order.to_multiset(),
    ensures
        is_selection(pool, now, size, quota, order),
{
    lemma_same_elements(picks, order);
    assert forall|k: int| 0 <= k < order.len() implies #[trigger] order[k] < pool.len() by {
        assert(order.contains(order[k]));
        let i = choose|i: int| 0 <= i < picks.len() && picks[i] == order[k];
        assert(picks[i] < pool.len());
    }
    lemma_census_permuted(pool, now, picks, order, Category::DueLearning);
    lemma_census_permuted(pool, now, picks, order, Category::DueReview);
    lemma_census_permuted(pool, now, picks, order, Category::Fresh);
    lemma_census_permuted(pool, now, picks, order, Category::Ahead);
    lemma_census_permuted(pool, now, picks, order, Category::Suspended);
    assert forall|p: usize, j: usize|
        #![trigger order.contains(p), precedes(pool, now, Order::Urgency, j, p)]
        order.contains(p) && j < pool.len() && category_of(pool[p as int], now)
            != Category::Fresh && category_of(pool[j as int], now) == category_of(
            pool[p as int],
            now,
        ) && precedes(pool, now, Order::Urgency, j, p) implies order.contains(j) by {
        assert(picks.contains(p));
        assert(picks.contains(j));
    }
}

/// Computes [`category_of`].
pub fn categorize(card: &Card, now: u64) -> (category: Category)
    ensures
        category == category_of(*card, now),
{
    if card.suspended {
        Category::Suspended
    } else {
        match card.state {
            CardState::New => Category::Fresh,
            CardState::Review => if card.due_at(now) {
                Category::DueReview
            } else {
                Category::Ahead
            },
            _ => if card.due_at(now) {
                Category::DueLearning
            } else {
                Category::Ahead
            },
        }
    }
}

fn classify(pool: &Vec<Card>, now: u64, category: Category) -> (part: Vec<usize>)
    ensures
        is_part(pool@, now, category, part@),
        within(part@, pool@.len()),
{
    let mut part: Vec<usize> = Vec::new();
    let mut i: usize = 0;
    while i < pool.len()
        invariant
            i <= pool.len(),
            part@ == members(pool@, now, category, i as nat),
        decreases pool.len() - i,
    {
        if categorize(&pool[i], now) == category {
            part.push(i);
        }
        i += 1;
    }
    proof {
        lemma_members(pool@, now, category, pool@.len());
        assert(pool@.take(pool@.len() as int) =~= pool@);
    }
    part
}

fn append_prefix(picks: &mut Vec<usize>, part: &Vec<usize>, count: usize)
    requires
        count <= part.len(),
    ensures
        final(picks)@ == old(picks)@ + part@.take(count as int),
{
    let ghost start = picks@;
    let mut i: usize = 0;
    assert(start + part@.take(0) =~= start);
    while i < count
        invariant
            i <= count <= part.len(),
            picks@ == start + part@.take(i as int),
        decreases count - i,
    {
        picks.push(part[i]);
        assert(start + part@.take(i + 1) =~= (start + part@.take(i as int)).push(part@[i as int]));
        i += 1;
    }
}

fn smaller(a: usize, b: usize) -> (m: usize)
    ensures
        m == least(a as int, b as int),
{
    if a <= b {
        a
    } else {
        b
    }
}

/// Chooses the positions of the next batch.
///
/// New cards are taken in random order, so which of them are chosen is
/// left open; everything else in [`is_selection`] is fixed by the pool.
pub fn select(pool: &Vec<Card>, now: u64, size: usize, quota: usize, rng: &mut StdRng) -> (picks:
    Vec<usize>)
    ensures
        is_selection(pool@, now, size, quota, picks@),
{
    let found = classify(pool, now, Category::DueLearning);
    let learning = sorted_by(pool, now, Order::Urgency, &found);
    proof {
        lemma_part_permuted(pool@, now, Category::DueLearning, found@, learning@);
    }
    let found = classify(pool, now, Category::DueReview);
    let review = sorted_by(pool, now, Order::Urgency, &found);
    proof {
        lemma_part_permuted(pool@, now, Category::DueReview, found@, review@);
    }
    let found = classify(pool, now, Category::Ahead);
    let ahead = sorted_by(pool, now, Order::Urgency, &found);
    proof {
        lemma_part_permuted(pool@, now, Category::Ahead, found@, ahead@);
    }
    let mut fresh = classify(pool, now, Category::Fresh);
    let ghost unshuffled = fresh@;
    shuffle_indices(&mut fresh, rng);
    proof {
        lemma_part_permuted(pool@, now, Category::Fresh, unshuffled, fresh@);
    }
    let mut picks: Vec<usize> = Vec::new();
    let from_learning = smaller(learning.len(), size);
    append_prefix(&mut picks, &learning, from_learning);
    let room = size - from_learning;
    let from_review = smaller(review.len(), room);
    append_prefix(&mut picks, &review, from_review);
    let room = room - from_review;
    let from_fresh = smaller(smaller(fresh.len(), quota), room);
    append_prefix(&mut picks, &fresh, from_fresh);
    let room = room - from_fresh;
    let from_ahead = smaller(ahead.len(), room);
    append_prefix(&mut picks, &ahead, from_ahead);
    proof {
        lemma_assembled(pool@, now, size, quota, learning@, review@, fresh@, ahead@);
        assert(picks@ =~= assembled(pool@, now, size, quota, learning@, review@, fresh@, ahead@));
    }
    picks
}

/// Puts a selection in the order in which it is shown: shuffled, but for
/// the `hard_first` hardest cards, which stand in front in order of
/// hardness.
pub fn arrange(
    pool: &Vec<Card>,
    now: u64,
    picks: Vec<usize>,
    hard_first: usize,
    rng: &mut StdRng,
) -> (order: Vec<usize>)
    requires
        within(picks@, pool@.len()),
    ensures
        order@.to_multiset() == picks@.to_multiset(),
        is_pinned(pool@, now, order@, least(hard_first as int, picks@.len() as int)),
{
    let sorted = sorted_by(pool, now, Order::Hardness, &picks);
    let pinned = smaller(hard_first, sorted.len());
    let mut order = sorted;
    let ghost whole = order@;
    let mut rest = order.split_off(pinned);
    let ghost head = order@;
    let ghost tail = rest@;
    shuffle_indices(&mut rest, rng);
    let ghost mixed = rest@;
    order.append(&mut rest);
    proof {
        assert(whole =~= head + tail);
        lemma_multiset_commutative(head, tail);
        lemma_multiset_commutative(head, mixed);
        lemma_same_elements(tail, mixed);
        assert forall|i: int, j: int| 0 <= i < pinned && i < j < order@.len() implies !precedes(
            pool@,
            now,
            Order::Hardness,
            #[trigger] order@[j],
            #[trigger] order@[i],
        ) by {
            assert(order@[i] == whole[i]);
            if j < pinned {
                assert(order@[j] == whole[j]);
            } else {
                let x = mixed[j - pinned];
                assert(order@[j] == x);
                assert(mixed.contains(x));
                assert(tail.contains(x));
                let q = choose|q: int| 0 <= q < tail.len() && tail[q] == x;
                assert(whole[pinned + q] == x);
            }
        }
    }
    order
}

/// Every card of the pool is suspended.
pub open spec fn fully_suspended(pool: Seq<Card>) -> bool {
    forall|i: int| 0 <= i < pool.len() ==> (#[trigger] pool[i]).suspended
}

/// `cards` is a batch of the pool: the cards at the positions of a
/// selection, with the hardest `config.hard_first` of them in front.
pub open spec fn is_batch_of(pool: Seq<Card>, now: u64, config: BatchConfig, cards: Seq<Card>) -> bool {
    exists|picks: Seq<usize>|
        #[trigger] drawn(pool, picks) == cards && is_selection(
            pool,
            now,
            config.batch_size,
            config.new_quota,
            picks,
        ) && is_pinned(pool, now, picks, least(config.hard_first as int, picks.len() as int))
}

/// How many of `cards` are due at `now`: new, or with their interval
/// passed since the last review. Suspension plays no part.
pub open spec fn due_count(cards: Seq<Card>, now: u64) -> nat
    decreases cards.len(),
{
    if cards.len() == 0 {
        0
    } else {
        due_count(cards.drop_last(), now) + if cards.last().is_due(now) {
            1nat
        } else {
            0nat
        }
    }
}

/// How many cards of the pool are ready to be shown at `now`: due and not
/// suspended.
pub open spec fn ready_count(pool: Seq<Card>, now: u64) -> nat {
    census(pool, now, Category::DueLearning) + census(pool, now, Category::DueReview) + census(
        pool,
        now,
        Category::Fresh,
    )
}

/// A batch holds no suspended card and only cards of the pool. It is no
/// longer than the batch size, and of each category it holds as many cards
/// as [`planned`] says: all due cards that are being learned, as far as
/// there is room, then due reviews, then new cards up to the quota, then
/// cards that are not yet due.
pub proof fn law_batch_composition(pool: Seq<Card>, now: u64, config: BatchConfig, cards: Seq<Card>)
    requires
        is_batch_of(pool, now, config, cards),
    ensures
        forall|i: int| 0 <= i < cards.len() ==> !(#[trigger] cards[i]).suspended,
        forall|i: int| 0 <= i < cards.len() ==> pool.contains(#[trigger] cards[i]),
        cards.len() <= config.batch_size,
        cards.len() <= pool.len(),
        census(cards, now, Category::DueLearning) == least(
            census(pool, now, Category::DueLearning) as int,
            config.batch_size as int,
        ),
        census(cards, now, Category::DueReview) == least(
            census(pool, now, Category::DueReview) as int,
            config.batch_size - census(cards, now, Category::DueLearning),
        ),
        census(cards, now, Category::Fresh) == least(
            least(census(pool, now, Category::Fresh) as int, config.new_quota as int),
            config.batch_size - census(cards, now, Category::DueLearning) - census(
                cards,
                now,
                Category::DueReview,
            ),
        ),
        census(cards, now, Category::Ahead) == least(
            census(pool, now, Category::Ahead) as int,
            config.batch_size - census(cards, now, Category::DueLearning) - census(
                cards,
                now,
                Category::DueReview,
            ) - census(cards, now, Category::Fresh),
        ),
        census(cards, now, Category::Suspended) == 0,
        cards.len() == census(cards, now, Category::DueLearning) + census(
            cards,
            now,
            Category::DueReview,
        ) + census(cards, now, Category::Fresh) + census(cards, now, Category::Ahead),
{
    let picks = choose|picks: Seq<usize>|
        #[trigger] drawn(pool, picks) == cards && is_selection(
            pool,
            now,
            config.batch_size,
            config.new_quota,
            picks,
        ) && is_pinned(pool, now, picks, least(config.hard_first as int, picks.len() as int));
    assert forall|i: int| 0 <= i < cards.len() implies !(#[trigger] cards[i]).suspended
        && pool.contains(cards[i]) by {
        assert(picks.contains(picks[i]));
        assert(cards[i] == pool[picks[i] as int]);
    }
    lemma_census_total(pool, now);
}

/// Each card is of exactly one category.
pub proof fn lemma_census_total(cards: Seq<Card>, now: u64)
    ensures
        cards.len() == census(cards, now, Category::DueLearning) + census(
            cards,
            now,
            Category::DueReview,
        ) + census(cards, now, Category::Fresh) + census(cards, now, Category::Ahead) + census(
            cards,
            now,
            Category::Suspended,
        ),
    decreases cards.len(),
{
    if cards.len() > 0 {
        lemma_census_total(cards.drop_last(), now);
    }
}

fn draw(pool: &Vec<Card>, picks: &Vec<usize>) -> (cards: Vec<Card>)
    requires
        within(picks@, pool@.len()),
    ensures
        cards@ == drawn(pool@, picks@),
{
    let mut cards: Vec<Card> = Vec::new();
    let mut i: usize = 0;
    while i < picks.len()
        invariant
            i <= picks.len(),
            within(picks@, pool@.len()),
            cards@.len() == i,
            forall|k: int| 0 <= k < i ==> cards@[k] == pool@[picks@[k] as int],
        decreases picks.len() - i,
    {
        cards.push(pool[picks[i]].clone());
        i += 1;
    }
    assert(cards@ =~= drawn(pool@, picks@));
    cards
}

fn all_suspended(pool: &Vec<Card>) -> (all: bool)
    ensures
        all == fully_suspended(pool@),
{
    let mut i: usize = 0;
    while i < pool.len()
        invariant
            i <= pool.len(),
            forall|k: int| 0 <= k < i ==> (#[trigger] pool@[k]).suspended,
        decreases pool.len() - i,
    {
        if !pool[i].suspended {
            return false;
        }
        i += 1;
    }
    true
}

impl BatchSelector {
    /// Composes the next batch from a snapshot of the pool.
    ///
    /// An empty pool and a pool of suspended cards only are told apart from
    /// each other and from a batch; a batch may be empty, when there is
    /// nothing to review. What holds of every batch is stated over
    /// [`is_batch_of`]; the count of each category and the absence of
    /// suspended cards are repeated for the cards themselves.
    pub fn next_batch(pool: &Vec<Card>, now: u64, config: &BatchConfig, rng: &mut StdRng) -> (result:
        Result<Batch, SelectError>)
        ensures
            match result {
                Err(SelectError::EmptyPool) => pool@.len() == 0,
                Err(SelectError::FullySuspended) => pool@.len() > 0 && fully_suspended(pool@),
                Ok(batch) => {
                    &&& pool@.len() > 0
                    &&& !fully_suspended(pool@)
                    &&& batch.current_index == 0
                    &&& is_batch_of(pool@, now, *config, batch.cards@)
                    &&& batch.cards@.len() <= config.batch_size
                    &&& forall|i: int|
                        0 <= i < batch.cards@.len() ==> !(#[trigger] batch.cards@[i]).suspended
                    &&& census(batch.cards@, now, Category::DueLearning) == planned(
                        pool@,
                        now,
                        config.batch_size,
                        config.new_quota,
                        Category::DueLearning,
                    )
                    &&& census(batch.cards@, now, Category::DueReview) == planned(
                        pool@,
                        now,
                        config.batch_size,
                        config.new_quota,
                        Category::DueReview,
                    )
                    &&& census(batch.cards@, now, Category::Fresh) == planned(
                        pool@,
                        now,
                        config.batch_size,
                        config.new_quota,
                        Category::Fresh,
                    )
                    &&& census(batch.cards@, now, Category::Ahead) == planned(
                        pool@,
                        now,
                        config.batch_size,
                        config.new_quota,
                        Category::Ahead,
                    )
                },
            },
    {
        if pool.len() == 0 {
            return Err(SelectError::EmptyPool);
        }
        if all_suspended(pool) {
            return Err(SelectError::FullySuspended);
        }
        let picks = select(pool, now, config.batch_size, config.new_quota, rng);
        let ghost chosen = picks@;
        let order = arrange(pool, now, picks, config.hard_first, rng);
        proof {
            lemma_selection_permuted(
                pool@,
                now,
                config.batch_size,
                config.new_quota,
                chosen,
                order@,
            );
            to_multiset_len(chosen);
            to_multiset_len(order@);
        }
        let cards = draw(pool, &order);
        proof {
            law_batch_composition(pool@, now, *config, cards@);
        }
        Ok(Batch { cards, current_index: 0 })
    }

    /// Counts the cards that are due at `now`, suspended or not.
    pub fn count_due(pool: &Vec<Card>, now: u64) -> (count: usize)
        ensures
            count == due_count(pool@, now),
            count <= pool@.len(),
    {
        let mut count: usize = 0;
        let mut i: usize = 0;
        assert(pool@.take(0) =~= Seq::<Card>::empty());
        while i < pool.len()
            invariant
                i <= pool.len(),
                count <= i,
                count == due_count(pool@.take(i as int), now),
            decreases pool.len() - i,
        {
            proof {
                assert(pool@.take(i + 1).drop_last() =~= pool@.take(i as int));
                assert(pool@.take(i + 1).last() == pool@[i as int]);
            }
            if pool[i].due_at(now) {
                count += 1;
            }
            i += 1;
        }
        assert(pool@.take(pool@.len() as int) =~= pool@);
        count
    }

    /// Counts the cards that can be scheduled at `now`: due and not
    /// suspended.
    pub fn count_ready(pool: &Vec<Card>, now: u64) -> (count: usize)
        ensures
            count == ready_count(pool@, now),
            count <= pool@.len(),
    {
        let mut count: usize = 0;
        let mut i: usize = 0;
        assert(pool@.take(0) =~= Seq::<Card>::empty());
        while i < pool.len()
            invariant
                i <= pool.len(),
                count <= i,
                count == ready_count(pool@.take(i as int), now),
            decreases pool.len() - i,
        {
            proof {
                assert(pool@.take(i + 1).drop_last() =~= pool@.take(i as int));
                assert(pool@.take(i + 1).last() == pool@[i as int]);
            }
            match categorize(&pool[i], now) {
                Category::DueLearning | Category::DueReview | Category::Fresh => {
                    count += 1;
                },
                _ => {},
            }
            i += 1;
        }
        assert(pool@.take(pool@.len() as int) =~= pool@);
        count
    }
}

} // verus!
