//! The retention model: how one answer changes a card's memory state.
//!
//! Every function here is a function of its arguments alone. The random
//! part of an interval, its fuzz, is an argument in thousandths.

use vstd::prelude::*;
use crate::card::{Card, CardState, MAX_DIFFICULTY, MIN_DIFFICULTY, MIN_INTERVAL};
use crate::fixed::{lemma_ln_micro_nonnegative, ln_micro, ln_micro_of};

verus! {

/// Interval after the first correct answer to a new card, in seconds.
pub const FIRST_STEP_INTERVAL: u64 = 60;

/// Interval after the second correct answer in a row, in seconds.
pub const SECOND_STEP_INTERVAL: u64 = 600;

/// Interval and stability of a card that graduates: one day.
pub const GRADUATION_INTERVAL: u64 = 86_400;

/// Interval of a card that lapsed and is learned again, in seconds.
pub const RELEARNING_INTERVAL: u64 = 600;

/// Number of lapses at which a card is suspended as a leech.
pub const LEECH_THRESHOLD: u32 = 8;

/// By how much a correct review lowers difficulty: 0.2, in thousandths.
pub const EASE_STEP: u32 = 200;

/// By how much a lapse raises difficulty: 0.5, in thousandths.
pub const LAPSE_STEP: u32 = 500;

/// Smallest fuzz, 0.95, in thousandths.
pub const FUZZ_MIN: u64 = 950;

/// Largest fuzz, 1.05, in thousandths.
pub const FUZZ_MAX: u64 = 1_050;

/// The fuzz that leaves an interval as it is.
pub const NO_FUZZ: u64 = 1_000;

/// What an answer does to a card: its new memory state, and whether the
/// answer suspends it.
#[derive(Clone, Copy, Debug, PartialEq, Eq, Structural)]
pub struct Update {
    pub stability: u64,
    pub difficulty: u32,
    pub state: CardState,
    pub step: u32,
    pub interval: u64,
    pub lapses: u32,
    pub suspend: bool,
}

/// Seconds since the last review, at least one.
pub open spec fn elapsed_seconds(last: u64, now: u64) -> int {
    if now > last {
        now - last
    } else {
        1
    }
}

/// The interval that was scheduled, at least one second.
pub open spec fn scheduled_seconds(interval: u64) -> int {
    if interval >= 1 {
        interval as int
    } else {
        1
    }
}

/// Elapsed time over scheduled interval, in millionths and rounded down;
/// `None` for a card without a recorded review.
pub open spec fn delay_factor_micro(card: Card, now: u64) -> Option<int> {
    match card.last_review {
        Some(last) => Some(
            elapsed_seconds(last, now) * 1_000_000 / scheduled_seconds(card.interval),
        ),
        None => None,
    }
}

/// The factor by which a correct review multiplies stability, in millionths.
///
/// It starts from `1 + 0.2 difficulty`. A late review (delay factor above
/// one) multiplies it by `1 + 0.5 ln(delay factor)`; an early one keeps of
/// the part above one only the share given by the delay factor.
pub open spec fn growth_micro(difficulty: u32, delay: Option<int>) -> int {
    let bonus = difficulty * 200;
    match delay {
        None => 1_000_000 + bonus,
        Some(factor) => if factor > 1_000_000 {
            (1_000_000 + bonus) * (2_000_000 + ln_micro(factor)) / 2_000_000
        } else {
            1_000_000 + bonus * factor / 1_000_000
        },
    }
}

/// A whole number of seconds held between `low` and `u64::MAX`.
pub open spec fn clamp_seconds(value: int, low: u64) -> u64 {
    if value < low {
        low
    } else if value > u64::MAX {
        u64::MAX
    } else {
        value as u64
    }
}

/// Stability after a correct review: the old one times the growth.
pub open spec fn grown_stability(stability: u64, growth: int) -> u64 {
    clamp_seconds(stability * growth / 1_000_000, 1)
}

/// Interval after a correct review: 1.6 times stability, times the fuzz.
pub open spec fn review_interval(stability: u64, fuzz: u64) -> u64 {
    clamp_seconds(stability * 16 * fuzz / 10_000, MIN_INTERVAL)
}

/// Interval of a card that returns to review after a lapse: 1.6 times
/// stability.
pub open spec fn regraduation_interval(stability: u64) -> u64 {
    clamp_seconds(stability * 16 / 10, MIN_INTERVAL)
}

/// Half of a stability, rounded down, and at least one second.
pub open spec fn halved(stability: u64) -> u64 {
    if stability >= 2 {
        stability / 2
    } else {
        1
    }
}

/// A difficulty held between 1.0 and 10.0.
pub open spec fn clamp_difficulty(value: int) -> u32 {
    if value < MIN_DIFFICULTY {
        MIN_DIFFICULTY
    } else if value > MAX_DIFFICULTY {
        MAX_DIFFICULTY
    } else {
        value as u32
    }
}

/// Lapses after one more, held at the largest number the field can hold.
pub open spec fn one_more_lapse(lapses: u32) -> u32 {
    if lapses < u32::MAX {
        (lapses + 1) as u32
    } else {
        lapses
    }
}

/// A card in `New` or `Learning`: two steps of 60 and 600 seconds, then
/// graduation; any wrong answer starts over. Difficulty is handed on, held
/// between 1.0 and 10.0.
pub open spec fn learning_update(card: Card, correct: bool) -> Update {
    if !correct {
        Update {
            stability: card.stability,
            difficulty: clamp_difficulty(card.difficulty as int),
            state: CardState::Learning,
            step: 0,
            interval: FIRST_STEP_INTERVAL,
            lapses: card.lapses,
            suspend: false,
        }
    } else if card.step == 0 {
        Update {
            stability: card.stability,
            difficulty: clamp_difficulty(card.difficulty as int),
            state: CardState::Learning,
            step: 1,
            interval: FIRST_STEP_INTERVAL,
            lapses: card.lapses,
            suspend: false,
        }
    } else if card.step == 1 {
        Update {
            stability: card.stability,
            difficulty: clamp_difficulty(card.difficulty as int),
            state: CardState::Learning,
            step: 2,
            interval: SECOND_STEP_INTERVAL,
            lapses: card.lapses,
            suspend: false,
        }
    } else {
        Update {
            stability: GRADUATION_INTERVAL,
            difficulty: clamp_difficulty(card.difficulty as int),
            state: CardState::Review,
            step: 0,
            interval: GRADUATION_INTERVAL,
            lapses: card.lapses,
            suspend: false,
        }
    }
}

/// A card in `Review` answered correctly.
pub open spec fn review_success(card: Card, now: u64, fuzz: u64) -> Update {
    let stability = grown_stability(
        card.stability,
        growth_micro(card.difficulty, delay_factor_micro(card, now)),
    );
    Update {
        stability,
        difficulty: clamp_difficulty(card.difficulty - EASE_STEP),
        state: CardState::Review,
        step: card.step,
        interval: review_interval(stability, fuzz),
        lapses: card.lapses,
        suspend: false,
    }
}

/// A card in `Review` answered wrongly: one more lapse. At the leech
/// threshold the card is suspended and neither its interval nor its
/// stability nor its state changes; below it the card is learned again with
/// half its stability. Difficulty is held between 1.0 and 10.0 either way.
pub open spec fn review_lapse(card: Card) -> Update {
    let lapses = one_more_lapse(card.lapses);
    if lapses >= LEECH_THRESHOLD {
        Update {
            stability: card.stability,
            difficulty: clamp_difficulty(card.difficulty as int),
            state: card.state,
            step: card.step,
            interval: card.interval,
            lapses,
            suspend: true,
        }
    } else {
        Update {
            stability: halved(card.stability),
            difficulty: clamp_difficulty(card.difficulty + LAPSE_STEP),
            state: CardState::Relearning,
            step: 0,
            interval: RELEARNING_INTERVAL,
            lapses,
            suspend: false,
        }
    }
}

/// A card in `Relearning`: a correct answer returns it to review, a wrong
/// one keeps it where it is.
pub open spec fn relearning_update(card: Card, correct: bool) -> Update {
    if correct {
        Update {
            stability: card.stability,
            difficulty: clamp_difficulty(card.difficulty as int),
            state: CardState::Review,
            step: 0,
            interval: regraduation_interval(card.stability),
            lapses: card.lapses,
            suspend: false,
        }
    } else {
        Update {
            stability: card.stability,
            difficulty: clamp_difficulty(card.difficulty as int),
            state: CardState::Relearning,
            step: 0,
            interval: RELEARNING_INTERVAL,
            lapses: card.lapses,
            suspend: false,
        }
    }
}

/// The update that an answer at time `now` gives, by the card's state.
pub open spec fn update_spec(card: Card, correct: bool, now: u64, fuzz: u64) -> Update {
    match card.state {
        CardState::New | CardState::Learning => learning_update(card, correct),
        CardState::Review => if correct {
            review_success(card, now, fuzz)
        } else {
            review_lapse(card)
        },
        CardState::Relearning => relearning_update(card, correct),
    }
}

/// The card after `update` was written to it at time `now`.
pub open spec fn applied(card: Card, update: Update, now: u64) -> Card {
    Card {
        id: card.id,
        prompt: card.prompt,
        answer: card.answer,
        stability: update.stability,
        difficulty: update.difficulty,
        state: update.state,
        step: update.step,
        interval: update.interval,
        lapses: update.lapses,
        suspended: card.suspended || update.suspend,
        last_review: Some(now),
    }
}

/// The card after an answer at time `now`.
pub open spec fn answered(card: Card, correct: bool, now: u64, fuzz: u64) -> Card {
    applied(card, update_spec(card, correct, now, fuzz), now)
}

fn clamp_to_seconds(value: u128, low: u64) -> (r: u64)
    ensures
        r == clamp_seconds(value as int, low),
{
    if value < low as u128 {
        low
    } else if value > u64::MAX as u128 {
        u64::MAX
    } else {
        value as u64
    }
}

fn clamp_to_difficulty(value: u64) -> (r: u32)
    ensures
        r == clamp_difficulty(value as int),
{
    if value < MIN_DIFFICULTY as u64 {
        MIN_DIFFICULTY
    } else if value > MAX_DIFFICULTY as u64 {
        MAX_DIFFICULTY
    } else {
        value as u32
    }
}

/// Computes [`delay_factor_micro`].
pub fn delay_factor(card: &Card, now: u64) -> (factor: Option<u128>)
    ensures
        match factor {
            Some(f) => delay_factor_micro(*card, now) == Some(f as int),
            None => delay_factor_micro(*card, now) is None,
        },
        factor matches Some(f) ==> f <= u64::MAX * 1_000_000,
{
    match card.last_review {
        Some(last) => {
            let elapsed: u64 = if now > last { now - last } else { 1 };
            let scheduled: u64 = if card.interval >= 1 { card.interval } else { 1 };
            let scaled: u128 = elapsed as u128 * 1_000_000;
            proof {
                vstd::arithmetic::div_mod::lemma_div_is_ordered_by_denominator(
                    scaled as int,
                    1,
                    scheduled as int,
                );
            }
            Some(scaled / scheduled as u128)
        },
        None => None,
    }
}

/// Computes [`growth_micro`].
pub fn growth(difficulty: u32, delay: Option<u128>) -> (g: u128)
    requires
        delay matches Some(f) ==> f <= u64::MAX * 1_000_000,
    ensures
        g == growth_micro(
            difficulty,
            match delay {
                Some(f) => Some(f as int),
                None => None,
            },
        ),
        1_000_000 <= g <= 40_000_000_000_000,
{
    let bonus: u128 = difficulty as u128 * 200;
    match delay {
        None => 1_000_000 + bonus,
        Some(factor) => {
            if factor > 1_000_000 {
                let log: u128 = ln_micro_of(factor) as u128;
                assert(2_000_000_000_000 <= (1_000_000 + bonus) * (2_000_000 + log)
                    <= 858_994_459_000 * 77_000_000) by (nonlinear_arith)
                    requires
                        0 <= bonus <= 858_993_459_000,
                        0 <= log <= 75_000_000,
                ;
                (1_000_000 + bonus) * (2_000_000 + log) / 2_000_000
            } else {
                assert(bonus * factor <= bonus * 1_000_000) by (nonlinear_arith)
                    requires
                        factor <= 1_000_000,
                        0 <= bonus,
                ;
                1_000_000 + bonus * factor / 1_000_000
            }
        },
    }
}

/// Computes the update that an answer gives to a card.
///
/// The result is [`update_spec`] of the arguments, so two calls with the
/// same card, answer, time and fuzz return the same update.
pub fn compute_update(card: &Card, correct: bool, now: u64, fuzz: u64) -> (update: Update)
    requires
        FUZZ_MIN <= fuzz <= FUZZ_MAX,
    ensures
        update == update_spec(*card, correct, now, fuzz),
{
    match card.state {
        CardState::New | CardState::Learning => {
            if !correct {
                Update {
                    stability: card.stability,
                    difficulty: clamp_to_difficulty(card.difficulty as u64),
                    state: CardState::Learning,
                    step: 0,
                    interval: FIRST_STEP_INTERVAL,
                    lapses: card.lapses,
                    suspend: false,
                }
            } else if card.step == 0 {
                Update {
                    stability: card.stability,
                    difficulty: clamp_to_difficulty(card.difficulty as u64),
                    state: CardState::Learning,
                    step: 1,
                    interval: FIRST_STEP_INTERVAL,
                    lapses: card.lapses,
                    suspend: false,
                }
            } else if card.step == 1 {
                Update {
                    stability: card.stability,
                    difficulty: clamp_to_difficulty(card.difficulty as u64),
                    state: CardState::Learning,
                    step: 2,
                    interval: SECOND_STEP_INTERVAL,
                    lapses: card.lapses,
                    suspend: false,
                }
            } else {
                Update {
                    stability: GRADUATION_INTERVAL,
                    difficulty: clamp_to_difficulty(card.difficulty as u64),
                    state: CardState::Review,
                    step: 0,
                    interval: GRADUATION_INTERVAL,
                    lapses: card.lapses,
                    suspend: false,
                }
            }
        },
        CardState::Review => {
            if correct {
                let g: u128 = growth(card.difficulty, delay_factor(card, now));
                assert(card.stability * g <= u64::MAX * 40_000_000_000_000) by (nonlinear_arith)
                    requires
                        card.stability <= u64::MAX,
                        0 <= g <= 40_000_000_000_000,
                ;
                let stability: u64 = clamp_to_seconds(card.stability as u128 * g / 1_000_000, 1);
                assert(stability * 16 * fuzz <= u64::MAX * 16 * 1_050) by (nonlinear_arith)
                    requires
                        stability <= u64::MAX,
                        0 <= fuzz <= 1_050,
                ;
                let eased: u64 = if card.difficulty >= EASE_STEP {
                    (card.difficulty - EASE_STEP) as u64
                } else {
                    0
                };
                Update {
                    stability,
                    difficulty: clamp_to_difficulty(eased),
                    state: CardState::Review,
                    step: card.step,
                    interval: clamp_to_seconds(
                        stability as u128 * 16 * fuzz as u128 / 10_000,
                        MIN_INTERVAL,
                    ),
                    lapses: card.lapses,
                    suspend: false,
                }
            } else {
                let lapses: u32 = if card.lapses < u32::MAX {
                    card.lapses + 1
                } else {
                    card.lapses
                };
                if lapses >= LEECH_THRESHOLD {
                    Update {
                        stability: card.stability,
                        difficulty: clamp_to_difficulty(card.difficulty as u64),
                        state: card.state,
                        step: card.step,
                        interval: card.interval,
                        lapses,
                        suspend: true,
                    }
                } else {
                    Update {
                        stability: if card.stability >= 2 {
                            card.stability / 2
                        } else {
                            1
                        },
                        difficulty: clamp_to_difficulty(card.difficulty as u64 + LAPSE_STEP as u64),
                        state: CardState::Relearning,
                        step: 0,
                        interval: RELEARNING_INTERVAL,
                        lapses,
                        suspend: false,
                    }
                }
            }
        },
        CardState::Relearning => {
            if correct {
                Update {
                    stability: card.stability,
                    difficulty: clamp_to_difficulty(card.difficulty as u64),
                    state: CardState::Review,
                    step: 0,
                    interval: clamp_to_seconds(card.stability as u128 * 16 / 10, MIN_INTERVAL),
                    lapses: card.lapses,
                    suspend: false,
                }
            } else {
                Update {
                    stability: card.stability,
                    difficulty: clamp_to_difficulty(card.difficulty as u64),
                    state: CardState::Relearning,
                    step: 0,
                    interval: RELEARNING_INTERVAL,
                    lapses: card.lapses,
                    suspend: false,
                }
            }
        },
    }
}

/// Writes `update` to the card and records `now` as its last review.
pub fn apply_update(card: &mut Card, update: Update, now: u64)
    ensures
        *final(card) == applied(*old(card), update, now),
{
    card.stability = update.stability;
    card.difficulty = update.difficulty;
    card.state = update.state;
    card.step = update.step;
    card.interval = update.interval;
    card.lapses = update.lapses;
    card.suspended = card.suspended || update.suspend;
    card.last_review = Some(now);
}

/// A card that is new, or that starts learning over, graduates with the
/// third correct answer in a row: it is then in review, at step 0, with a
/// stability and an interval of one day. A card further up the ladder
/// graduates as soon as the remaining steps are taken.
pub proof fn law_three_correct_answers_graduate(
    card: Card,
    first: u64,
    second: u64,
    third: u64,
    fuzz: u64,
)
    requires
        card.state is New || card.state is Learning,
    ensures
        ({
            let once = answered(card, true, first, fuzz);
            let twice = answered(once, true, second, fuzz);
            let thrice = answered(twice, true, third, fuzz);
            let graduate = if card.step == 0 {
                thrice
            } else if card.step == 1 {
                twice
            } else {
                once
            };
            &&& graduate.state is Review
            &&& graduate.step == 0
            &&& graduate.stability == GRADUATION_INTERVAL
            &&& graduate.interval == GRADUATION_INTERVAL
            &&& card.step == 0 ==> once.interval == FIRST_STEP_INTERVAL && twice.interval
                == SECOND_STEP_INTERVAL && !(once.state is Review) && !(twice.state is Review)
        }),
{
}

/// A wrong answer to a card in review counts exactly one more lapse, as
/// long as the counter can hold one more. If that reaches the leech
/// threshold, the card is suspended and its interval, stability and state
/// stay as they were, and so does a difficulty between 1.0 and 10.0.
/// Otherwise its stability is halved and it is learned again.
pub proof fn law_lapse_counts_and_halves(card: Card, now: u64, fuzz: u64)
    requires
        card.state is Review,
        card.lapses < u32::MAX,
    ensures
        ({
            let update = update_spec(card, false, now, fuzz);
            let after = answered(card, false, now, fuzz);
            &&& update.lapses == card.lapses + 1
            &&& update.suspend <==> update.lapses >= LEECH_THRESHOLD
            &&& update.suspend ==> after.suspended && update.interval == card.interval
                && update.stability == card.stability && update.difficulty == clamp_difficulty(
                card.difficulty as int,
            ) && update.state == card.state && (MIN_DIFFICULTY <= card.difficulty
                <= MAX_DIFFICULTY ==> update.difficulty == card.difficulty)
            &&& !update.suspend ==> update.stability == halved(card.stability) && update.state
                is Relearning && update.interval == RELEARNING_INTERVAL && after.suspended
                == card.suspended
            &&& card.stability >= 2 ==> 2 * halved(card.stability) <= card.stability < 2 * halved(
                card.stability,
            ) + 2
        }),
{
}

/// After a correct review the interval is at least a minute, and of two
/// cards with the same difficulty, the same delay factor and the same fuzz,
/// the one with the larger stability gets no shorter an interval and no
/// smaller a new stability.
pub proof fn law_review_interval_monotone(
    lesser: Card,
    greater: Card,
    now_lesser: u64,
    now_greater: u64,
    fuzz: u64,
)
    requires
        lesser.state is Review,
        greater.state is Review,
        lesser.difficulty == greater.difficulty,
        delay_factor_micro(lesser, now_lesser) == delay_factor_micro(greater, now_greater),
        lesser.stability <= greater.stability,
    ensures
        update_spec(lesser, true, now_lesser, fuzz).interval >= MIN_INTERVAL,
        update_spec(greater, true, now_greater, fuzz).interval >= MIN_INTERVAL,
        update_spec(lesser, true, now_lesser, fuzz).stability <= update_spec(
            greater,
            true,
            now_greater,
            fuzz,
        ).stability,
        update_spec(lesser, true, now_lesser, fuzz).interval <= update_spec(
            greater,
            true,
            now_greater,
            fuzz,
        ).interval,
{
    let delay = delay_factor_micro(lesser, now_lesser);
    let g = growth_micro(lesser.difficulty, delay);
    lemma_growth_at_least_one(lesser, now_lesser);
    let a = lesser.stability as int;
    let b = greater.stability as int;
    assert(a * g <= b * g) by (nonlinear_arith)
        requires
            a <= b,
            0 <= g,
    ;
    let sa = grown_stability(lesser.stability, g) as int;
    let sb = grown_stability(greater.stability, g) as int;
    assert(sa <= sb);
    assert(sa * 16 * fuzz <= sb * 16 * fuzz) by (nonlinear_arith)
        requires
            sa <= sb,
            0 <= fuzz,
    ;
}

/// The growth of a correct review is never below one: stability does not
/// shrink on success.
pub proof fn lemma_growth_at_least_one(card: Card, now: u64)
    ensures
        growth_micro(card.difficulty, delay_factor_micro(card, now)) >= 1_000_000,
{
    let bonus = card.difficulty * 200;
    match delay_factor_micro(card, now) {
        None => {},
        Some(factor) => {
            let last = card.last_review->0;
            let elapsed = elapsed_seconds(last, now);
            let scheduled = scheduled_seconds(card.interval);
            assert(0 <= elapsed * 1_000_000);
            vstd::arithmetic::div_mod::lemma_div_pos_is_pos(elapsed * 1_000_000, scheduled);
            if factor > 1_000_000 {
                lemma_ln_micro_nonnegative(factor);
                let log = ln_micro(factor);
                assert((1_000_000 + bonus) * (2_000_000 + log) >= 2_000_000_000_000)
                    by (nonlinear_arith)
                    requires
                        0 <= bonus,
                        0 <= log,
                ;
            } else {
                assert(0 <= bonus * factor) by (nonlinear_arith)
                    requires
                        0 <= bonus,
                        0 <= factor,
                ;
            }
        },
    }
}

/// Any two updates that [`compute_update`] may return for one card, one
/// answer, one time and one fuzz are the same update.
pub proof fn law_update_is_repeatable(
    card: Card,
    correct: bool,
    now: u64,
    fuzz: u64,
    first: Update,
    second: Update,
)
    requires
        first == update_spec(card, correct, now, fuzz),
        second == update_spec(card, correct, now, fuzz),
    ensures
        first == second,
        applied(card, first, now) == applied(card, second, now),
{
}

/// An answer keeps a well-formed card well formed, and leaves it reviewed:
/// no longer new, with a last review at `now` and an interval of at least a
/// minute. Its identity and texts do not change.
pub proof fn law_answer_keeps_well_formed(card: Card, correct: bool, now: u64, fuzz: u64)
    requires
        card.well_formed(),
    ensures
        answered(card, correct, now, fuzz).well_formed(),
        !(answered(card, correct, now, fuzz).state is New),
        answered(card, correct, now, fuzz).last_review == Some(now),
        answered(card, correct, now, fuzz).interval >= MIN_INTERVAL,
        answered(card, correct, now, fuzz).id == card.id,
        answered(card, correct, now, fuzz).prompt == card.prompt,
        answered(card, correct, now, fuzz).answer == card.answer,
{
}

} // verus!
