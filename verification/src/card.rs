//! The reviewable unit and its memory state.

use vstd::prelude::*;

verus! {

/// Smallest difficulty, 1.0, in thousandths.
pub const MIN_DIFFICULTY: u32 = 1_000;

/// Largest difficulty, 10.0, in thousandths.
pub const MAX_DIFFICULTY: u32 = 10_000;

/// Difficulty of a card that was never reviewed, 5.0, in thousandths.
pub const DEFAULT_DIFFICULTY: u32 = 5_000;

/// Stability of a card that was never reviewed: one day.
pub const DEFAULT_STABILITY: u64 = 86_400;

/// Shortest delay before a reviewed card is shown again, in seconds.
pub const MIN_INTERVAL: u64 = 60;

/// Which update rule applies to a card.
#[derive(Clone, Copy, Debug, PartialEq, Eq, Structural)]
pub enum CardState {
    New,
    Learning,
    Review,
    Relearning,
}

/// A flashcard with its memory model.
///
/// `stability` and `interval` are seconds, `difficulty` is thousandths
/// (1000 is 1.0), `last_review` is a time in seconds on the caller's clock.
#[derive(Debug, PartialEq, Eq)]
pub struct Card {
    pub id: String,
    pub prompt: String,
    pub answer: String,
    pub stability: u64,
    pub difficulty: u32,
    pub state: CardState,
    pub step: u32,
    pub interval: u64,
    pub lapses: u32,
    pub suspended: bool,
    pub last_review: Option<u64>,
}

impl Card {
    /// The invariants of a card that only this library has changed.
    pub open spec fn well_formed(self) -> bool {
        &&& MIN_DIFFICULTY <= self.difficulty <= MAX_DIFFICULTY
        &&& self.stability >= 1
        &&& self.state is New ==> self.last_review is None && self.lapses == 0
        &&& !(self.state is New) ==> self.last_review is Some && self.interval >= MIN_INTERVAL
    }

    /// Seconds by which the card is past its due time; negative while it is
    /// not yet due. A card without a recorded review counts as just due.
    pub open spec fn urgency(self, now: u64) -> int {
        match self.last_review {
            Some(at) => now - at - self.interval,
            None => 0,
        }
    }

    /// A card is due when it is new or its interval has passed since the
    /// last review.
    pub open spec fn is_due(self, now: u64) -> bool {
        self.state is New || self.urgency(now) >= 0
    }

    /// A fresh card with the default memory state.
    pub fn new(id: String, prompt: String, answer: String) -> (card: Card)
        ensures
            card.id == id,
            card.prompt == prompt,
            card.answer == answer,
            card.stability == DEFAULT_STABILITY,
            card.difficulty == DEFAULT_DIFFICULTY,
            card.state is New,
            card.step == 0,
            card.interval == 0,
            card.lapses == 0,
            !card.suspended,
            card.last_review is None,
            card.well_formed(),
    {
        Card {
            id,
            prompt,
            answer,
            stability: DEFAULT_STABILITY,
            difficulty: DEFAULT_DIFFICULTY,
            state: CardState::New,
            step: 0,
            interval: 0,
            lapses: 0,
            suspended: false,
            last_review: None,
        }
    }

    /// Computes [`Card::urgency`].
    pub fn urgency_at(&self, now: u64) -> (u: i128)
        ensures
            u == self.urgency(now),
    {
        match self.last_review {
            Some(at) => now as i128 - at as i128 - self.interval as i128,
            None => 0,
        }
    }

    /// Computes [`Card::is_due`].
    pub fn due_at(&self, now: u64) -> (due: bool)
        ensures
            due == self.is_due(now),
    {
        match self.state {
            CardState::New => true,
            _ => self.urgency_at(now) >= 0,
        }
    }
}

impl Clone for Card {
    fn clone(&self) -> (copy: Card)
        ensures
            copy == *self,
    {
        Card {
            id: self.id.clone(),
            prompt: self.prompt.clone(),
            answer: self.answer.clone(),
            stability: self.stability,
            difficulty: self.difficulty,
            state: self.state,
            step: self.step,
            interval: self.interval,
            lapses: self.lapses,
            suspended: self.suspended,
            last_review: self.last_review,
        }
    }
}

} // verus!
