//! The scheduler of one learner's session: the current batch, the position
//! in it, and the cards that were answered wrongly.
//!
//! The scheduler is idle or in a batch. It asks for a batch only when
//! [`Scheduler::start`] is called, so that each batch is composed from the
//! pool as it then is.

use vstd::prelude::*;
use vstd::hash_set::StringHashSet;
use rand::rngs::StdRng;
use crate::batch::{
    fully_suspended, is_batch_of, Batch, BatchConfig, BatchSelector, SelectError,
};
use crate::card::Card;
use crate::machine::{CardStateMachine, UpdateError};
use crate::retention::{FUZZ_MAX, FUZZ_MIN};
use crate::text::{answers_match, normal_form};

verus! {

/// Whether a batch is being worked through.
#[derive(Clone, Copy, Debug, PartialEq, Eq, Structural)]
pub enum SchedulerState {
    Idle,
    InBatch,
}

/// The screen that goes with the scheduler's state.
#[derive(Clone, Copy, Debug, PartialEq, Eq, Structural)]
pub enum AppState {
    Dashboard,
    Quiz,
}

/// How an answer was judged.
#[derive(Debug, PartialEq, Eq)]
pub enum Verdict {
    Correct,
    /// Wrong; holds the expected answer.
    Incorrect(String),
    /// The current card was answered before.
    AlreadyAnswered,
    /// There is no current card.
    NothingToAnswer,
}

/// What [`Scheduler::submit`] returns: the verdict, and for a judged answer
/// the card to write, or why there is none.
#[derive(Debug)]
pub struct Submission {
    pub verdict: Verdict,
    pub update: Option<Result<Card, UpdateError>>,
}

/// What [`Scheduler::advance`] found.
#[derive(Clone, Copy, Debug, PartialEq, Eq, Structural)]
pub enum Advance {
    NextItem,
    BatchExhausted,
}

/// What the user interface sees of the current card.
#[derive(Debug)]
pub struct CardView {
    pub prompt: String,
    /// Position of the card in its batch, counted from 0.
    pub position: usize,
    /// Number of cards in the batch.
    pub total: usize,
}

/// The scheduling state of one session.
pub struct Scheduler {
    pub state: SchedulerState,
    pub batch: Batch,
    /// Whether the current card has been judged.
    pub answered: bool,
    /// Ids of the cards answered wrongly since the last reset.
    pub mistakes: StringHashSet,
    pub config: BatchConfig,
}

impl Scheduler {
    /// There is a card under the cursor.
    pub open spec fn has_current(self) -> bool {
        self.state is InBatch && self.batch.current_index < self.batch.cards@.len()
    }

    /// The card under the cursor.
    pub open spec fn current_card(self) -> Card {
        self.batch.cards@[self.batch.current_index as int]
    }

    /// The scheduler holds no batch.
    pub open spec fn at_rest(self) -> bool {
        &&& self.state is Idle
        &&& self.batch.cards@.len() == 0
        &&& self.batch.current_index == 0
        &&& !self.answered
    }

    /// An idle scheduler holds no batch, and a scheduler in a batch has a
    /// current card.
    pub open spec fn well_formed(self) -> bool {
        &&& self.state is Idle ==> self.at_rest()
        &&& self.state is InBatch ==> self.batch.current_index < self.batch.cards@.len()
    }

    /// The persisted card, if it is the one under the cursor.
    pub open spec fn persisted_current(self, persisted: Option<&Card>) -> Option<&Card> {
        match persisted {
            Some(card) => if card.id@ == self.current_card().id@ {
                Some(card)
            } else {
                None
            },
            None => None,
        }
    }

    /// Whether `raw` answers the current card correctly.
    pub open spec fn judges_correct(self, raw: Seq<char>) -> bool {
        normal_form(raw) == normal_form(self.current_card().answer@)
    }

    /// An idle scheduler without mistakes.
    pub fn new(config: BatchConfig) -> (scheduler: Scheduler)
        ensures
            scheduler.at_rest(),
            scheduler.mistakes@ == Set::<Seq<char>>::empty(),
            scheduler.config == config,
            scheduler.well_formed(),
    {
        Scheduler {
            state: SchedulerState::Idle,
            batch: Batch { cards: Vec::new(), current_index: 0 },
            answered: false,
            mistakes: StringHashSet::new(),
            config,
        }
    }

    /// Asks the batch selector for a batch from the pool as it is now.
    ///
    /// Returns the number of cards in the batch. With a batch that is not
    /// empty the scheduler is in the batch, at its first card; with an
    /// empty one, or none, it is idle.
    pub fn start(&mut self, pool: &Vec<Card>, now: u64, rng: &mut StdRng) -> (result: Result<
        usize,
        SelectError,
    >)
        ensures
            final(self).mistakes@ == old(self).mistakes@,
            final(self).config == old(self).config,
            final(self).batch.current_index == 0,
            !final(self).answered,
            match result {
                Err(SelectError::EmptyPool) => pool@.len() == 0 && final(self).at_rest(),
                Err(SelectError::FullySuspended) => pool@.len() > 0 && fully_suspended(pool@)
                    && final(self).at_rest(),
                Ok(count) => {
                    &&& pool@.len() > 0
                    &&& !fully_suspended(pool@)
                    &&& count == final(self).batch.cards@.len()
                    &&& count <= old(self).config.batch_size
                    &&& is_batch_of(pool@, now, old(self).config, final(self).batch.cards@)
                    &&& forall|i: int|
                        0 <= i < count ==> !(#[trigger] final(self).batch.cards@[i]).suspended
                    &&& final(self).state == if count == 0 {
                        SchedulerState::Idle
                    } else {
                        SchedulerState::InBatch
                    }
                },
            },
            old(self).well_formed() ==> final(self).well_formed(),
    {
        self.answered = false;
        match BatchSelector::next_batch(pool, now, &self.config, rng) {
            Err(error) => {
                self.state = SchedulerState::Idle;
                self.batch = Batch { cards: Vec::new(), current_index: 0 };
                Err(error)
            },
            Ok(batch) => {
                let count = batch.cards.len();
                self.state = if count == 0 {
                    SchedulerState::Idle
                } else {
                    SchedulerState::InBatch
                };
                self.batch = batch;
                Ok(count)
            },
        }
    }

    /// The card under the cursor, or `None` when the scheduler is idle or
    /// the cursor is past the batch.
    pub fn current(&self) -> (card: Option<&Card>)
        ensures
            card is Some <==> self.has_current(),
            card is Some ==> *card->0 == self.current_card(),
    {
        match self.state {
            SchedulerState::Idle => None,
            SchedulerState::InBatch => {
                if self.batch.current_index < self.batch.cards.len() {
                    Some(&self.batch.cards[self.batch.current_index])
                } else {
                    None
                }
            },
        }
    }

    /// What the user interface shows of the current card: its prompt and
    /// where it stands in the batch.
    pub fn current_item(&self) -> (view: Option<CardView>)
        ensures
            view is Some <==> self.has_current(),
            view is Some ==> view->0.prompt == self.current_card().prompt && view->0.position
                == self.batch.current_index && view->0.total == self.batch.cards@.len(),
    {
        match self.current() {
            None => None,
            Some(card) => Some(
                CardView {
                    prompt: card.prompt.clone(),
                    position: self.batch.current_index,
                    total: self.batch.cards.len(),
                },
            ),
        }
    }

    /// The screen to show: the quiz while in a batch, else the dashboard.
    pub fn screen(&self) -> (screen: AppState)
        ensures
            screen == match self.state {
                SchedulerState::Idle => AppState::Dashboard,
                SchedulerState::InBatch => AppState::Quiz,
            },
    {
        match self.state {
            SchedulerState::Idle => AppState::Dashboard,
            SchedulerState::InBatch => AppState::Quiz,
        }
    }

    /// Judges an answer to the current card and computes the card to write.
    ///
    /// `persisted` is the stored card with the current card's id, as the
    /// caller has just read it; a card with another id counts as missing.
    /// The answer is compared with the expected one in normal form. A wrong
    /// answer records the card's id as a mistake, whatever becomes of the
    /// update. The cursor does not move. When the stored card is missing,
    /// the item leaves the batch, and if it was the last one the scheduler
    /// is idle.
    pub fn submit(&mut self, raw: &str, persisted: Option<&Card>, now: u64, fuzz: u64) -> (submission:
        Submission)
        requires
            FUZZ_MIN <= fuzz <= FUZZ_MAX,
        ensures
            final(self).config == old(self).config,
            !old(self).has_current() ==> submission.verdict == Verdict::NothingToAnswer
                && submission.update is None && *final(self) == *old(self),
            old(self).has_current() && old(self).answered ==> submission.verdict
                == Verdict::AlreadyAnswered && submission.update is None && *final(self) == *old(
                self,
            ),
            old(self).has_current() && !old(self).answered ==> {
                let card = old(self).current_card();
                let correct = old(self).judges_correct(raw@);
                let outcome = CardStateMachine::outcome(
                    old(self).persisted_current(persisted),
                    correct,
                    now,
                    fuzz,
                );
                &&& submission.update == Some(outcome)
                &&& submission.verdict == if correct {
                    Verdict::Correct
                } else {
                    Verdict::Incorrect(card.answer)
                }
                &&& final(self).mistakes@ == if correct {
                    old(self).mistakes@
                } else {
                    old(self).mistakes@.insert(card.id@)
                }
                &&& outcome == Err::<Card, UpdateError>(UpdateError::NotFound) ==> {
                    &&& !final(self).answered
                    &&& if old(self).batch.current_index + 1 < old(self).batch.cards@.len() {
                        &&& final(self).state is InBatch
                        &&& final(self).batch.current_index == old(self).batch.current_index
                        &&& final(self).batch.cards@ == old(self).batch.cards@.remove(
                            old(self).batch.current_index as int,
                        )
                    } else {
                        final(self).at_rest()
                    }
                }
                &&& outcome != Err::<Card, UpdateError>(UpdateError::NotFound) ==> {
                    &&& final(self).state is InBatch
                    &&& final(self).batch.current_index == old(self).batch.current_index
                    &&& final(self).batch.cards@ == old(self).batch.cards@
                    &&& final(self).answered
                }
            },
            old(self).well_formed() ==> final(self).well_formed(),
    {
        let index = self.batch.current_index;
        let has_current = match self.state {
            SchedulerState::Idle => false,
            SchedulerState::InBatch => index < self.batch.cards.len(),
        };
        if !has_current {
            return Submission { verdict: Verdict::NothingToAnswer, update: None };
        }
        if self.answered {
            return Submission { verdict: Verdict::AlreadyAnswered, update: None };
        }
        let card = self.batch.cards[index].clone();
        let correct = answers_match(raw, card.answer.as_str());
        let stored: Option<&Card> = match persisted {
            Some(found) => if found.id == card.id {
                Some(found)
            } else {
                None
            },
            None => None,
        };
        let outcome = CardStateMachine::update(stored, correct, now, fuzz);
        let verdict = if correct {
            Verdict::Correct
        } else {
            Verdict::Incorrect(card.answer.clone())
        };
        if !correct {
            self.mistakes.insert(card.id.clone());
        }
        match outcome {
            Err(UpdateError::NotFound) => {
                if index + 1 < self.batch.cards.len() {
                    self.batch.cards.remove(index);
                } else {
                    self.state = SchedulerState::Idle;
                    self.batch = Batch { cards: Vec::new(), current_index: 0 };
                }
            },
            _ => {
                self.answered = true;
            },
        }
        Submission { verdict, update: Some(outcome) }
    }

    /// Opens the current card for an answer again, after the card that
    /// [`Scheduler::submit`] returned could not be written.
    pub fn reopen(&mut self)
        ensures
            *final(self) == (Scheduler { answered: false, ..*old(self) }),
    {
        self.answered = false;
    }

    /// Moves the cursor to the next card. Past the last card the batch is
    /// dropped and the scheduler is idle, until it is started again.
    pub fn advance(&mut self) -> (result: Advance)
        ensures
            final(self).mistakes@ == old(self).mistakes@,
            final(self).config == old(self).config,
            !final(self).answered || old(self).state is Idle,
            old(self).state is Idle ==> result == Advance::BatchExhausted && *final(self) == *old(
                self,
            ),
            old(self).state is InBatch && old(self).batch.current_index + 1 < old(
                self,
            ).batch.cards@.len() ==> {
                &&& result == Advance::NextItem
                &&& final(self).state is InBatch
                &&& final(self).batch.cards@ == old(self).batch.cards@
                &&& final(self).batch.current_index == old(self).batch.current_index + 1
            },
            old(self).state is InBatch && old(self).batch.current_index + 1 >= old(
                self,
            ).batch.cards@.len() ==> result == Advance::BatchExhausted && final(self).at_rest(),
            old(self).well_formed() ==> final(self).well_formed(),
    {
        match self.state {
            SchedulerState::Idle => Advance::BatchExhausted,
            SchedulerState::InBatch => {
                self.answered = false;
                let len = self.batch.cards.len();
                if self.batch.current_index < len && self.batch.current_index + 1 < len {
                    self.batch.current_index = self.batch.current_index + 1;
                    Advance::NextItem
                } else {
                    self.state = SchedulerState::Idle;
                    self.batch = Batch { cards: Vec::new(), current_index: 0 };
                    Advance::BatchExhausted
                }
            },
        }
    }

    /// Drops the batch and forgets the mistakes.
    pub fn reset(&mut self)
        ensures
            final(self).at_rest(),
            final(self).mistakes@ == Set::<Seq<char>>::empty(),
            final(self).config == old(self).config,
            final(self).well_formed(),
    {
        self.state = SchedulerState::Idle;
        self.batch = Batch { cards: Vec::new(), current_index: 0 };
        self.answered = false;
        self.mistakes.clear();
    }

    /// Number of cards answered wrongly since the last reset.
    pub fn mistake_count(&self) -> (count: usize)
        ensures
            count == self.mistakes@.len(),
    {
        self.mistakes.len()
    }

    /// Whether the card with this id was answered wrongly since the last
    /// reset.
    pub fn is_mistake(&self, id: &str) -> (recorded: bool)
        ensures
            recorded == self.mistakes@.contains(id@),
    {
        self.mistakes.contains(id)
    }
}

} // verus!
