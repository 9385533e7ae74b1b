//! The SuperMemo-2 rule: progress counted in repetitions, with an interval
//! in days and an easiness factor in thousandths (2500 is 2.5).

use vstd::prelude::*;
use vstd::string::StringExecFns;

verus! {

/// Easiness factor of a kana that was never reviewed: 2.5.
pub const DEFAULT_EASINESS: u32 = 2_500;

/// Smallest easiness factor: 1.3.
pub const MIN_EASINESS: u32 = 1_300;

/// Lowest grade that counts as a correct answer.
pub const PASSING_GRADE: u8 = 3;

/// Seconds in a day.
pub const SECONDS_PER_DAY: u64 = 86_400;

/// A learner's progress with one kana.
#[derive(Debug, PartialEq, Eq)]
pub struct UserProgress {
    pub kana_char: String,
    /// Easiness factor, in thousandths.
    pub easiness_factor: u32,
    /// Days until the next review.
    pub interval: u64,
    /// Correct answers in a row.
    pub repetitions: u32,
    /// When the next review is due, in seconds on the caller's clock.
    pub next_review_date: u64,
}

/// A number held at or below `u64::MAX`.
pub open spec fn capped(value: int) -> u64 {
    if value > u64::MAX {
        u64::MAX
    } else {
        value as u64
    }
}

/// The easiness factor after an answer of the given grade: it changes by
/// `0.1 - (5 - grade) (0.08 + (5 - grade) 0.02)` and stays at 1.3 or above.
pub open spec fn next_easiness(easiness: u32, grade: u8) -> u32 {
    let miss = 5 - grade;
    let changed = easiness + 100 - miss * (80 + miss * 20);
    if changed < MIN_EASINESS {
        MIN_EASINESS
    } else if changed > u32::MAX {
        u32::MAX
    } else {
        changed as u32
    }
}

/// The interval in days after an answer: one day and six days for the first
/// two correct answers in a row, then the last interval times the easiness
/// factor, rounded; one day after a wrong answer.
pub open spec fn next_interval(current: UserProgress, grade: u8) -> u64 {
    if grade < PASSING_GRADE {
        1
    } else if current.repetitions == 0 {
        1
    } else if current.repetitions == 1 {
        6
    } else {
        capped((current.interval * current.easiness_factor + 500) / 1000)
    }
}

/// The progress after an answer of the given grade at time `now`.
pub open spec fn next_progress(current: UserProgress, grade: u8, now: u64) -> UserProgress {
    let interval = next_interval(current, grade);
    UserProgress {
        kana_char: current.kana_char,
        easiness_factor: next_easiness(current.easiness_factor, grade),
        interval,
        repetitions: if grade < PASSING_GRADE {
            0
        } else {
            (current.repetitions + 1) as u32
        },
        next_review_date: capped(now + interval * SECONDS_PER_DAY),
    }
}

impl UserProgress {
    /// The progress of a kana that was never reviewed, due at `now`.
    pub fn new(char: &str, now: u64) -> (progress: UserProgress)
        ensures
            progress.kana_char@ == char@,
            progress.easiness_factor == DEFAULT_EASINESS,
            progress.interval == 0,
            progress.repetitions == 0,
            progress.next_review_date == now,
    {
        UserProgress {
            kana_char: String::from_str(char),
            easiness_factor: DEFAULT_EASINESS,
            interval: 0,
            repetitions: 0,
            next_review_date: now,
        }
    }
}

fn cap(value: u128) -> (r: u64)
    ensures
        r == capped(value as int),
{
    if value > u64::MAX as u128 {
        u64::MAX
    } else {
        value as u64
    }
}

/// Computes the progress after an answer. Grades run from 0, a blackout,
/// to 5, a perfect answer; from 3 on the answer counts as correct.
pub fn calculate_new_progress(current: &UserProgress, grade: u8, now: u64) -> (progress:
    UserProgress)
    requires
        grade >= PASSING_GRADE ==> current.repetitions < u32::MAX,
    ensures
        progress == next_progress(*current, grade, now),
{
    let interval: u64 = if grade < PASSING_GRADE {
        1
    } else if current.repetitions == 0 {
        1
    } else if current.repetitions == 1 {
        6
    } else {
        assert(current.interval * current.easiness_factor <= u64::MAX * u32::MAX)
            by (nonlinear_arith);
        cap((current.interval as u128 * current.easiness_factor as u128 + 500) / 1000)
    };
    let miss: i64 = 5 - grade as i64;
    assert(-250 * 5000 <= miss * (80 + miss * 20) <= 250 * 5000) by (nonlinear_arith)
        requires
            -250 <= miss <= 5,
    ;
    let changed: i64 = current.easiness_factor as i64 + 100 - miss * (80 + miss * 20);
    let easiness_factor: u32 = if changed < MIN_EASINESS as i64 {
        MIN_EASINESS
    } else if changed > u32::MAX as i64 {
        u32::MAX
    } else {
        changed as u32
    };
    UserProgress {
        kana_char: current.kana_char.clone(),
        easiness_factor,
        interval,
        repetitions: if grade < PASSING_GRADE {
            0
        } else {
            current.repetitions + 1
        },
        next_review_date: cap(now as u128 + interval as u128 * SECONDS_PER_DAY as u128),
    }
}

} // verus!
