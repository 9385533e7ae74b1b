//! The card state machine: one answer applied to the persisted card.
//!
//! Reading the card and writing it back are the caller's part. The caller
//! hands in what it read, writes what [`CardStateMachine::update`] returns,
//! and reports to [`CardStateMachine::conclude`] whether the write went
//! through.

use vstd::prelude::*;
use rand::rngs::StdRng;
use crate::card::Card;
use crate::chance::draw_fuzz;
use crate::retention::{answered, apply_update, compute_update, FUZZ_MAX, FUZZ_MIN};

verus! {

/// Why an answer changed nothing.
#[derive(Clone, Copy, Debug, PartialEq, Eq, Structural)]
pub enum UpdateError {
    /// No card with this id is stored.
    NotFound,
    /// The card was suspended before the answer came.
    AlreadySuspended,
    /// The updated card could not be written.
    PersistenceError,
}

/// What the caller shows after an answer was stored.
#[derive(Clone, Copy, Debug, PartialEq, Eq, Structural)]
pub enum UpdateSignal {
    /// The card comes up again after this many seconds.
    NextReviewIn(u64),
    /// The answer suspended the card.
    SuspendedNow,
}

/// Applies answers to persisted cards.
pub struct CardStateMachine;

impl CardStateMachine {
    /// The card to write for an answer, or why there is none.
    pub open spec fn outcome(persisted: Option<&Card>, correct: bool, now: u64, fuzz: u64) -> Result<
        Card,
        UpdateError,
    > {
        match persisted {
            None => Err(UpdateError::NotFound),
            Some(card) => if card.suspended {
                Err(UpdateError::AlreadySuspended)
            } else {
                Ok(answered(*card, correct, now, fuzz))
            },
        }
    }

    /// What is reported for a card that was updated and handed to the store.
    pub open spec fn signal_of(updated: Card, written: bool) -> Result<UpdateSignal, UpdateError> {
        if !written {
            Err(UpdateError::PersistenceError)
        } else if updated.suspended {
            Ok(UpdateSignal::SuspendedNow)
        } else {
            Ok(UpdateSignal::NextReviewIn(updated.interval))
        }
    }

    /// Computes the card to write for an answer to the persisted card.
    ///
    /// A missing card and a suspended one are refused. The result depends
    /// on the persisted card, the answer, the time and the fuzz alone, so
    /// an answer that is submitted again before the card was written gives
    /// the same card again.
    pub fn update(persisted: Option<&Card>, correct: bool, now: u64, fuzz: u64) -> (result: Result<
        Card,
        UpdateError,
    >)
        requires
            FUZZ_MIN <= fuzz <= FUZZ_MAX,
        ensures
            result == Self::outcome(persisted, correct, now, fuzz),
    {
        match persisted {
            None => Err(UpdateError::NotFound),
            Some(card) => {
                if card.suspended {
                    Err(UpdateError::AlreadySuspended)
                } else {
                    let update = compute_update(card, correct, now, fuzz);
                    let mut next = card.clone();
                    apply_update(&mut next, update, now);
                    Ok(next)
                }
            },
        }
    }

    /// As [`CardStateMachine::update`], with a fuzz drawn from `rng`.
    pub fn update_fuzzed(persisted: Option<&Card>, correct: bool, now: u64, rng: &mut StdRng) -> (result:
        Result<Card, UpdateError>)
        ensures
            exists|fuzz: u64|
                FUZZ_MIN <= fuzz <= FUZZ_MAX && result == #[trigger] Self::outcome(
                    persisted,
                    correct,
                    now,
                    fuzz,
                ),
    {
        let fuzz = draw_fuzz(rng);
        Self::update(persisted, correct, now, fuzz)
    }

    /// Turns the result of the write into what the caller reports: the new
    /// interval, that the card is now suspended, or that nothing was
    /// stored.
    pub fn conclude(updated: &Card, written: bool) -> (result: Result<UpdateSignal, UpdateError>)
        ensures
            result == Self::signal_of(*updated, written),
    {
        if !written {
            Err(UpdateError::PersistenceError)
        } else if updated.suspended {
            Ok(UpdateSignal::SuspendedNow)
        } else {
            Ok(UpdateSignal::NextReviewIn(updated.interval))
        }
    }
}

} // verus!
