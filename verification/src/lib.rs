//! A spaced-repetition scheduling engine for kana flashcards.
//!
//! All quantities are integers. Times and intervals are whole seconds,
//! stability is whole seconds, difficulty is counted in thousandths and
//! growth factors in millionths, so that every update is a function of its
//! arguments alone and can be stated exactly.
//!
//! The retention model ([`retention`]) says what one answer does to a card,
//! the card state machine ([`machine`]) applies it to the persisted card,
//! the batch selector ([`batch`]) composes what is shown next, and the
//! scheduler ([`scheduler`]) walks a learner through a batch. Reading and
//! writing the card store is left to the caller.

pub mod card;
pub mod fixed;
pub mod retention;
pub mod chance;
pub mod machine;
pub mod ranking;
pub mod batch;
pub mod text;
pub mod scheduler;
pub mod data;
pub mod feedback;
pub mod clock;
pub mod models;
pub mod srs;
