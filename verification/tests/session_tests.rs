use kana_tutor::batch::{BatchConfig, SelectError};
use kana_tutor::card::{Card, CardState};
use kana_tutor::chance::draw_fuzz;
use kana_tutor::machine::{CardStateMachine, UpdateError, UpdateSignal};
use kana_tutor::retention::{FUZZ_MAX, FUZZ_MIN, NO_FUZZ};
use kana_tutor::scheduler::{Advance, AppState, Scheduler, SchedulerState, Verdict};
use rand::rngs::StdRng;
use rand::SeedableRng;

fn kana(id: &str, prompt: &str, answer: &str) -> Card {
    Card::new(id.to_string(), prompt.to_string(), answer.to_string())
}

fn pool() -> Vec<Card> {
    vec![kana("1", "あ", "a"), kana("2", "か", "ka"), kana("3", "つ", "tsu")]
}

fn lookup<'a>(pool: &'a [Card], id: &str) -> Option<&'a Card> {
    pool.iter().find(|card| card.id == id)
}

fn started(pool: &[Card]) -> Scheduler {
    let mut scheduler = Scheduler::new(BatchConfig::default());
    let mut rng = StdRng::seed_from_u64(17);
    assert_eq!(scheduler.start(&pool.to_vec(), 100, &mut rng), Ok(pool.len()));
    scheduler
}

#[test]
fn missing_card_is_not_found() {
    assert_eq!(CardStateMachine::update(None, true, 10, NO_FUZZ), Err(UpdateError::NotFound));
}

#[test]
fn suspended_card_is_refused() {
    let mut card = kana("1", "あ", "a");
    card.suspended = true;
    assert_eq!(
        CardStateMachine::update(Some(&card), true, 10, NO_FUZZ),
        Err(UpdateError::AlreadySuspended)
    );
}

#[test]
fn update_returns_the_card_to_write() {
    let card = kana("1", "あ", "a");
    let next = CardStateMachine::update(Some(&card), true, 10, NO_FUZZ).unwrap();
    assert_eq!(next.id, "1");
    assert_eq!(next.state, CardState::Learning);
    assert_eq!(next.step, 1);
    assert_eq!(next.interval, 60);
    assert_eq!(next.last_review, Some(10));
    assert_eq!(card.state, CardState::New);
    let again = CardStateMachine::update(Some(&card), true, 10, NO_FUZZ).unwrap();
    assert_eq!(next, again);
}

#[test]
fn conclude_reports_interval_suspension_or_failure() {
    let mut card = kana("1", "あ", "a");
    card.state = CardState::Review;
    card.lapses = 7;
    card.interval = 900;
    card.last_review = Some(0);
    let grown = CardStateMachine::update(Some(&card), true, 900, NO_FUZZ).unwrap();
    assert_eq!(
        CardStateMachine::conclude(&grown, true),
        Ok(UpdateSignal::NextReviewIn(grown.interval))
    );
    assert_eq!(CardStateMachine::conclude(&grown, false), Err(UpdateError::PersistenceError));
    let leech = CardStateMachine::update(Some(&card), false, 900, NO_FUZZ).unwrap();
    assert!(leech.suspended);
    assert_eq!(CardStateMachine::conclude(&leech, true), Ok(UpdateSignal::SuspendedNow));
    assert_eq!(CardStateMachine::conclude(&leech, false), Err(UpdateError::PersistenceError));
}

#[test]
fn fuzz_is_drawn_within_five_percent() {
    let mut rng = StdRng::seed_from_u64(5);
    let mut seen = Vec::new();
    for _ in 0..500 {
        let fuzz = draw_fuzz(&mut rng);
        assert!(fuzz >= FUZZ_MIN && fuzz <= FUZZ_MAX);
        seen.push(fuzz);
    }
    seen.sort();
    seen.dedup();
    assert!(seen.len() > 50);
}

#[test]
fn fuzzed_update_stays_within_the_fuzz() {
    let mut card = kana("1", "あ", "a");
    card.state = CardState::Review;
    card.stability = 100_000;
    card.interval = 100_000;
    card.last_review = Some(0);
    let mut rng = StdRng::seed_from_u64(23);
    let mut intervals = Vec::new();
    for _ in 0..50 {
        let next = CardStateMachine::update_fuzzed(Some(&card), true, 100_000, &mut rng).unwrap();
        assert_eq!(next.stability, 200_000);
        assert!(next.interval >= 304_000 && next.interval <= 336_000);
        intervals.push(next.interval);
    }
    intervals.sort();
    intervals.dedup();
    assert!(intervals.len() > 1);
    assert_eq!(
        CardStateMachine::update_fuzzed(None, true, 1, &mut rng),
        Err(UpdateError::NotFound)
    );
}

#[test]
fn new_scheduler_is_idle() {
    let scheduler = Scheduler::new(BatchConfig::default());
    assert_eq!(scheduler.state, SchedulerState::Idle);
    assert_eq!(scheduler.screen(), AppState::Dashboard);
    assert!(scheduler.current().is_none());
    assert!(scheduler.current_item().is_none());
    assert_eq!(scheduler.mistake_count(), 0);
}

#[test]
fn start_enters_the_batch_at_its_first_card() {
    let scheduler = started(&pool());
    assert_eq!(scheduler.state, SchedulerState::InBatch);
    assert_eq!(scheduler.screen(), AppState::Quiz);
    assert_eq!(scheduler.batch.current_index, 0);
    assert_eq!(scheduler.batch.cards.len(), 3);
    let view = scheduler.current_item().unwrap();
    assert_eq!(view.position, 0);
    assert_eq!(view.total, 3);
    assert_eq!(view.prompt, scheduler.current().unwrap().prompt);
}

#[test]
fn start_on_an_empty_pool_stays_idle() {
    let mut scheduler = Scheduler::new(BatchConfig::default());
    let mut rng = StdRng::seed_from_u64(1);
    assert_eq!(scheduler.start(&Vec::new(), 5, &mut rng), Err(SelectError::EmptyPool));
    assert_eq!(scheduler.state, SchedulerState::Idle);
    let mut leeches = pool();
    for card in leeches.iter_mut() {
        card.suspended = true;
    }
    assert_eq!(scheduler.start(&leeches, 5, &mut rng), Err(SelectError::FullySuspended));
    assert_eq!(scheduler.state, SchedulerState::Idle);
    let config = BatchConfig { batch_size: 20, new_quota: 0, hard_first: 0 };
    let mut none_due = Scheduler::new(config);
    assert_eq!(none_due.start(&pool(), 5, &mut rng), Ok(0));
    assert_eq!(none_due.state, SchedulerState::Idle);
    assert!(none_due.current().is_none());
}

#[test]
fn correct_answer_in_any_case_and_spacing() {
    let cards = pool();
    let mut scheduler = started(&cards);
    let current = scheduler.current().unwrap().clone();
    let raw = format!("  {} ", current.answer.to_uppercase());
    let submission = scheduler.submit(&raw, lookup(&cards, &current.id), 200, NO_FUZZ);
    assert_eq!(submission.verdict, Verdict::Correct);
    let written = submission.update.unwrap().unwrap();
    assert_eq!(written.id, current.id);
    assert_eq!(written.state, CardState::Learning);
    assert_eq!(written.step, 1);
    assert_eq!(written.interval, 60);
    assert_eq!(scheduler.batch.current_index, 0);
    assert!(scheduler.answered);
    assert_eq!(scheduler.mistake_count(), 0);
}

#[test]
fn wrong_answer_names_the_expected_one_and_is_recorded_once() {
    let cards = pool();
    let mut scheduler = started(&cards);
    let current = scheduler.current().unwrap().clone();
    let submission = scheduler.submit("wrong", lookup(&cards, &current.id), 200, NO_FUZZ);
    assert_eq!(submission.verdict, Verdict::Incorrect(current.answer.clone()));
    let written = submission.update.unwrap().unwrap();
    assert_eq!(written.state, CardState::Learning);
    assert_eq!(written.step, 0);
    assert_eq!(scheduler.mistake_count(), 1);
    assert!(scheduler.is_mistake(&current.id));
    assert_eq!(scheduler.batch.current_index, 0);
    let second = scheduler.submit("wrong", lookup(&cards, &current.id), 201, NO_FUZZ);
    assert_eq!(second.verdict, Verdict::AlreadyAnswered);
    assert!(second.update.is_none());
    scheduler.reopen();
    let third = scheduler.submit("wrong", lookup(&cards, &current.id), 202, NO_FUZZ);
    assert_eq!(third.verdict, Verdict::Incorrect(current.answer.clone()));
    assert_eq!(scheduler.mistake_count(), 1);
    assert!(scheduler.is_mistake(&current.id));
}

#[test]
fn resubmitting_after_a_failed_write_gives_the_same_card() {
    let cards = pool();
    let mut scheduler = started(&cards);
    let current = scheduler.current().unwrap().clone();
    let first = scheduler.submit(&current.answer, lookup(&cards, &current.id), 300, 1_020);
    let card = first.update.unwrap().unwrap();
    assert_eq!(CardStateMachine::conclude(&card, false), Err(UpdateError::PersistenceError));
    scheduler.reopen();
    assert_eq!(scheduler.batch.current_index, 0);
    let second = scheduler.submit(&current.answer, lookup(&cards, &current.id), 300, 1_020);
    assert_eq!(second.verdict, Verdict::Correct);
    assert_eq!(second.update.unwrap().unwrap(), card);
}

#[test]
fn nothing_to_answer_when_idle() {
    let mut scheduler = Scheduler::new(BatchConfig::default());
    let submission = scheduler.submit("a", None, 1, NO_FUZZ);
    assert_eq!(submission.verdict, Verdict::NothingToAnswer);
    assert!(submission.update.is_none());
    assert_eq!(scheduler.advance(), Advance::BatchExhausted);
    assert_eq!(scheduler.state, SchedulerState::Idle);
}

#[test]
fn missing_stored_card_drops_the_item() {
    let cards = pool();
    let mut scheduler = started(&cards);
    let first = scheduler.current().unwrap().clone();
    let second = scheduler.batch.cards[1].clone();
    let submission = scheduler.submit("wrong", None, 200, NO_FUZZ);
    assert_eq!(submission.update, Some(Err(UpdateError::NotFound)));
    assert_eq!(submission.verdict, Verdict::Incorrect(first.answer.clone()));
    assert_eq!(scheduler.batch.cards.len(), 2);
    assert_eq!(scheduler.current().unwrap(), &second);
    assert!(!scheduler.answered);
    assert_eq!(scheduler.mistake_count(), 1);
    assert!(scheduler.is_mistake(&first.id));
    let other = scheduler.submit("x", lookup(&cards, &first.id), 200, NO_FUZZ);
    assert_eq!(other.update, Some(Err(UpdateError::NotFound)));
    assert_eq!(scheduler.batch.cards.len(), 1);
    assert_eq!(scheduler.mistake_count(), 2);
    assert!(scheduler.is_mistake(&second.id));
    let third = scheduler.current().unwrap().clone();
    let last = scheduler.submit(&third.answer, None, 200, NO_FUZZ);
    assert_eq!(last.verdict, Verdict::Correct);
    assert_eq!(last.update, Some(Err(UpdateError::NotFound)));
    assert_eq!(scheduler.mistake_count(), 2);
    assert!(!scheduler.is_mistake(&third.id));
    assert_eq!(scheduler.state, SchedulerState::Idle);
    assert!(scheduler.batch.cards.is_empty());
}

#[test]
fn stored_card_that_is_suspended_is_judged_but_not_written() {
    let mut cards = pool();
    let mut scheduler = started(&cards);
    let current = scheduler.current().unwrap().clone();
    for card in cards.iter_mut() {
        card.suspended = true;
    }
    let submission = scheduler.submit(&current.answer, lookup(&cards, &current.id), 200, NO_FUZZ);
    assert_eq!(submission.verdict, Verdict::Correct);
    assert_eq!(submission.update, Some(Err(UpdateError::AlreadySuspended)));
    assert!(scheduler.answered);
}

#[test]
fn update_is_computed_from_the_stored_card() {
    let mut cards = pool();
    let mut scheduler = started(&cards);
    let current = scheduler.current().unwrap().clone();
    for card in cards.iter_mut() {
        card.state = CardState::Learning;
        card.step = 2;
        card.interval = 600;
        card.last_review = Some(50);
    }
    let submission = scheduler.submit(&current.answer, lookup(&cards, &current.id), 700, NO_FUZZ);
    let written = submission.update.unwrap().unwrap();
    assert_eq!(written.state, CardState::Review);
    assert_eq!(written.interval, 86_400);
}

#[test]
fn advance_walks_the_batch_and_ends_idle() {
    let cards = pool();
    let mut scheduler = started(&cards);
    let first = scheduler.current().unwrap().id.clone();
    scheduler.submit("a", lookup(&cards, &first), 200, NO_FUZZ);
    assert_eq!(scheduler.advance(), Advance::NextItem);
    assert_eq!(scheduler.batch.current_index, 1);
    assert!(!scheduler.answered);
    assert_ne!(scheduler.current().unwrap().id, first);
    assert_eq!(scheduler.current_item().unwrap().position, 1);
    assert_eq!(scheduler.advance(), Advance::NextItem);
    assert_eq!(scheduler.advance(), Advance::BatchExhausted);
    assert_eq!(scheduler.state, SchedulerState::Idle);
    assert_eq!(scheduler.screen(), AppState::Dashboard);
    assert!(scheduler.current().is_none());
    assert!(scheduler.batch.cards.is_empty());
    assert_eq!(scheduler.advance(), Advance::BatchExhausted);
}

#[test]
fn mistakes_last_until_reset() {
    let cards = pool();
    let mut scheduler = started(&cards);
    for _ in 0..3 {
        let id = scheduler.current().unwrap().id.clone();
        scheduler.submit("no", lookup(&cards, &id), 200, NO_FUZZ);
        scheduler.advance();
    }
    assert_eq!(scheduler.mistake_count(), 3);
    for card in &cards {
        assert!(scheduler.is_mistake(&card.id));
    }
    assert!(!scheduler.is_mistake("none"));
    let mut rng = StdRng::seed_from_u64(2);
    assert_eq!(scheduler.start(&cards, 300, &mut rng), Ok(3));
    assert_eq!(scheduler.mistake_count(), 3);
    scheduler.reset();
    assert_eq!(scheduler.mistake_count(), 0);
    assert!(!scheduler.is_mistake(&cards[0].id));
    assert_eq!(scheduler.state, SchedulerState::Idle);
    assert!(scheduler.batch.cards.is_empty());
}

#[test]
fn leech_is_suspended_through_the_whole_path() {
    let mut stored = kana("9", "ぬ", "nu");
    stored.state = CardState::Review;
    stored.lapses = 7;
    stored.interval = 4_000;
    stored.last_review = Some(0);
    let cards = vec![stored.clone()];
    let mut scheduler = Scheduler::new(BatchConfig::default());
    let mut rng = StdRng::seed_from_u64(4);
    assert_eq!(scheduler.start(&cards, 1, &mut rng), Ok(1));
    let submission = scheduler.submit("me", Some(&stored), 5_000, NO_FUZZ);
    let written = submission.update.unwrap().unwrap();
    assert!(written.suspended);
    assert_eq!(written.lapses, 8);
    assert_eq!(written.interval, 4_000);
    assert_eq!(CardStateMachine::conclude(&written, true), Ok(UpdateSignal::SuspendedNow));
    assert_eq!(scheduler.advance(), Advance::BatchExhausted);
    assert_eq!(
        scheduler.start(&vec![written], 6_000, &mut rng),
        Err(SelectError::FullySuspended)
    );
}
