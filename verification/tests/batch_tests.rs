use kana_tutor::batch::{
    arrange, categorize, select, BatchConfig, BatchSelector, Category, SelectError,
    DEFAULT_BATCH_SIZE, DEFAULT_NEW_QUOTA,
};
use kana_tutor::card::{Card, CardState};
use kana_tutor::ranking::{goes_before, sorted_by, Order};
use rand::rngs::StdRng;
use rand::SeedableRng;

const NOW: u64 = 1_000_000;

fn new_card(id: usize) -> Card {
    Card::new(format!("n{}", id), format!("prompt {}", id), format!("answer {}", id))
}

fn reviewed(id: String, state: CardState, overdue: i64) -> Card {
    let mut card = Card::new(id, "p".to_string(), "a".to_string());
    card.state = state;
    card.interval = 1_000;
    card.last_review = Some((NOW as i64 - 1_000 - overdue) as u64);
    card
}

fn pool_of(learning: usize, review: usize, new: usize, ahead: usize) -> Vec<Card> {
    let mut pool = Vec::new();
    for i in 0..new {
        pool.push(new_card(i));
    }
    for i in 0..ahead {
        pool.push(reviewed(format!("a{}", i), CardState::Review, -(10 + i as i64)));
    }
    for i in 0..review {
        pool.push(reviewed(format!("r{}", i), CardState::Review, 5 + i as i64));
    }
    for i in 0..learning {
        let state = if i % 2 == 0 { CardState::Learning } else { CardState::Relearning };
        pool.push(reviewed(format!("l{}", i), state, 1 + i as i64));
    }
    pool
}

fn count(cards: &[Card], category: Category) -> usize {
    cards.iter().filter(|card| categorize(card, NOW) == category).count()
}

fn config(batch_size: usize, new_quota: usize, hard_first: usize) -> BatchConfig {
    BatchConfig { batch_size, new_quota, hard_first }
}

fn ids(cards: &[Card]) -> Vec<String> {
    let mut ids: Vec<String> = cards.iter().map(|card| card.id.clone()).collect();
    ids.sort();
    ids
}

#[test]
fn default_config_is_twenty_cards_with_five_new() {
    let config = BatchConfig::default();
    assert_eq!(config.batch_size, 20);
    assert_eq!(config.new_quota, 5);
    assert_eq!(config.hard_first, 0);
    assert_eq!(DEFAULT_BATCH_SIZE, 20);
    assert_eq!(DEFAULT_NEW_QUOTA, 5);
}

#[test]
fn categories_of_cards() {
    assert_eq!(categorize(&new_card(0), NOW), Category::Fresh);
    assert_eq!(categorize(&reviewed("a".into(), CardState::Review, 0), NOW), Category::DueReview);
    assert_eq!(categorize(&reviewed("a".into(), CardState::Review, -1), NOW), Category::Ahead);
    assert_eq!(categorize(&reviewed("a".into(), CardState::Learning, 3), NOW), Category::DueLearning);
    assert_eq!(
        categorize(&reviewed("a".into(), CardState::Relearning, 3), NOW),
        Category::DueLearning
    );
    assert_eq!(categorize(&reviewed("a".into(), CardState::Learning, -3), NOW), Category::Ahead);
    let mut leech = reviewed("a".into(), CardState::Review, 100);
    leech.suspended = true;
    assert_eq!(categorize(&leech, NOW), Category::Suspended);
    let mut suspended_new = new_card(1);
    suspended_new.suspended = true;
    assert_eq!(categorize(&suspended_new, NOW), Category::Suspended);
}

#[test]
fn batch_takes_all_due_cards_and_the_quota_of_new_ones() {
    let pool = pool_of(3, 10, 50, 0);
    for seed in 0..20u64 {
        let mut rng = StdRng::seed_from_u64(seed);
        let batch = BatchSelector::next_batch(&pool, NOW, &config(20, 5, 0), &mut rng).unwrap();
        assert_eq!(batch.current_index, 0);
        assert_eq!(batch.cards.len(), 18);
        assert_eq!(count(&batch.cards, Category::DueLearning), 3);
        assert_eq!(count(&batch.cards, Category::DueReview), 10);
        assert_eq!(count(&batch.cards, Category::Fresh), 5);
        assert_eq!(count(&batch.cards, Category::Ahead), 0);
        let mut seen = ids(&batch.cards);
        seen.dedup();
        assert_eq!(seen.len(), 18);
    }
}

#[test]
fn batch_is_filled_up_with_cards_that_are_not_yet_due() {
    let pool = pool_of(3, 6, 50, 10);
    let mut rng = StdRng::seed_from_u64(3);
    let batch = BatchSelector::next_batch(&pool, NOW, &config(20, 5, 0), &mut rng).unwrap();
    assert_eq!(batch.cards.len(), 20);
    assert_eq!(count(&batch.cards, Category::DueLearning), 3);
    assert_eq!(count(&batch.cards, Category::DueReview), 6);
    assert_eq!(count(&batch.cards, Category::Fresh), 5);
    assert_eq!(count(&batch.cards, Category::Ahead), 6);
    let ahead: Vec<String> = ids(&batch.cards).into_iter().filter(|id| id.starts_with('a')).collect();
    assert_eq!(ahead, vec!["a0", "a1", "a2", "a3", "a4", "a5"]);
}

#[test]
fn due_cards_crowd_out_new_ones_but_not_the_other_way_round() {
    let pool = pool_of(4, 30, 50, 5);
    let mut rng = StdRng::seed_from_u64(11);
    let batch = BatchSelector::next_batch(&pool, NOW, &config(20, 5, 0), &mut rng).unwrap();
    assert_eq!(batch.cards.len(), 20);
    assert_eq!(count(&batch.cards, Category::DueLearning), 4);
    assert_eq!(count(&batch.cards, Category::DueReview), 16);
    assert_eq!(count(&batch.cards, Category::Fresh), 0);
    let reviews: Vec<String> = ids(&batch.cards).into_iter().filter(|id| id.starts_with('r')).collect();
    let mut expected: Vec<String> = (14..30).map(|i| format!("r{}", i)).collect();
    expected.sort();
    assert_eq!(reviews, expected);
}

#[test]
fn learning_cards_alone_can_fill_the_batch() {
    let pool = pool_of(9, 3, 2, 2);
    let mut rng = StdRng::seed_from_u64(5);
    let batch = BatchSelector::next_batch(&pool, NOW, &config(4, 5, 0), &mut rng).unwrap();
    assert_eq!(ids(&batch.cards), vec!["l5", "l6", "l7", "l8"]);
}

#[test]
fn small_pool_is_returned_whole() {
    let pool = pool_of(1, 2, 3, 2);
    let mut rng = StdRng::seed_from_u64(1);
    let batch = BatchSelector::next_batch(&pool, NOW, &config(20, 5, 0), &mut rng).unwrap();
    assert_eq!(batch.cards.len(), 8);
    assert_eq!(ids(&batch.cards), ids(&pool));
}

#[test]
fn batch_never_holds_a_suspended_card() {
    let mut pool = pool_of(5, 8, 12, 6);
    for (i, card) in pool.iter_mut().enumerate() {
        if i % 3 == 0 {
            card.suspended = true;
        }
    }
    for seed in 0..30u64 {
        for hard_first in [0usize, 4, 100] {
            let mut rng = StdRng::seed_from_u64(seed);
            let batch =
                BatchSelector::next_batch(&pool, NOW, &config(20, 5, hard_first), &mut rng).unwrap();
            assert!(batch.cards.iter().all(|card| !card.suspended));
            assert!(batch.cards.len() <= 20);
            for card in &batch.cards {
                assert!(pool.contains(card));
            }
        }
    }
}

#[test]
fn empty_pool_is_told_apart() {
    let mut rng = StdRng::seed_from_u64(1);
    let result = BatchSelector::next_batch(&Vec::new(), NOW, &BatchConfig::default(), &mut rng);
    assert_eq!(result.err(), Some(SelectError::EmptyPool));
}

#[test]
fn pool_of_leeches_is_told_apart() {
    let mut pool = pool_of(2, 2, 2, 2);
    for card in pool.iter_mut() {
        card.suspended = true;
    }
    let mut rng = StdRng::seed_from_u64(1);
    let result = BatchSelector::next_batch(&pool, NOW, &BatchConfig::default(), &mut rng);
    assert_eq!(result.err(), Some(SelectError::FullySuspended));
}

#[test]
fn nothing_to_review_is_an_empty_batch() {
    let pool = pool_of(0, 0, 4, 0);
    let mut rng = StdRng::seed_from_u64(1);
    let batch = BatchSelector::next_batch(&pool, NOW, &config(20, 0, 0), &mut rng).unwrap();
    assert!(batch.cards.is_empty());
    let batch = BatchSelector::next_batch(&pool_of(1, 1, 1, 1), NOW, &config(0, 5, 0), &mut rng)
        .unwrap();
    assert!(batch.cards.is_empty());
}

#[test]
fn batch_is_shuffled() {
    let pool = pool_of(0, 20, 0, 0);
    let sorted: Vec<String> = (0..20).rev().map(|i| format!("r{}", i)).collect();
    let mut rng = StdRng::seed_from_u64(42);
    let batch = BatchSelector::next_batch(&pool, NOW, &config(20, 5, 0), &mut rng).unwrap();
    let shown: Vec<String> = batch.cards.iter().map(|card| card.id.clone()).collect();
    assert_eq!(ids(&batch.cards), ids(&pool));
    assert_ne!(shown, sorted);
    let in_pool_order: Vec<String> = pool.iter().map(|card| card.id.clone()).collect();
    assert_ne!(shown, in_pool_order);
    let mut again = StdRng::seed_from_u64(42);
    let repeat = BatchSelector::next_batch(&pool, NOW, &config(20, 5, 0), &mut again).unwrap();
    assert_eq!(repeat.cards, batch.cards);
}

#[test]
fn new_cards_are_drawn_at_random() {
    let pool = pool_of(0, 0, 50, 0);
    let mut draws = Vec::new();
    for seed in 0..10u64 {
        let mut rng = StdRng::seed_from_u64(seed);
        let batch = BatchSelector::next_batch(&pool, NOW, &config(20, 5, 0), &mut rng).unwrap();
        assert_eq!(batch.cards.len(), 5);
        draws.push(ids(&batch.cards));
    }
    draws.sort();
    draws.dedup();
    assert!(draws.len() > 1);
}

#[test]
fn hardest_cards_stand_in_front() {
    let mut pool = pool_of(0, 12, 0, 0);
    for (i, card) in pool.iter_mut().enumerate() {
        card.lapses = (i % 4) as u32;
        card.difficulty = 1_000 + 100 * ((i * 7) % 12) as u32;
    }
    let mut ranked: Vec<(u32, u32, String)> =
        pool.iter().map(|card| (card.lapses, card.difficulty, card.id.clone())).collect();
    ranked.sort_by(|a, b| (b.0, b.1).cmp(&(a.0, a.1)));
    for seed in 0..10u64 {
        let mut rng = StdRng::seed_from_u64(seed);
        let batch = BatchSelector::next_batch(&pool, NOW, &config(20, 5, 3), &mut rng).unwrap();
        assert_eq!(batch.cards.len(), 12);
        for k in 0..3 {
            assert_eq!(batch.cards[k].id, ranked[k].2);
        }
        assert_eq!(ids(&batch.cards), ids(&pool));
    }
}

#[test]
fn hard_first_beyond_the_batch_sorts_it_all() {
    let mut pool = pool_of(0, 5, 0, 0);
    for (i, card) in pool.iter_mut().enumerate() {
        card.lapses = i as u32;
    }
    let mut rng = StdRng::seed_from_u64(9);
    let batch = BatchSelector::next_batch(&pool, NOW, &config(20, 5, 50), &mut rng).unwrap();
    let lapses: Vec<u32> = batch.cards.iter().map(|card| card.lapses).collect();
    assert_eq!(lapses, vec![4, 3, 2, 1, 0]);
}

#[test]
fn selection_holds_positions_once_each() {
    let pool = pool_of(3, 10, 50, 4);
    let mut rng = StdRng::seed_from_u64(8);
    let picks = select(&pool, NOW, 20, 5, &mut rng);
    assert_eq!(picks.len(), 20);
    let mut sorted = picks.clone();
    sorted.sort();
    sorted.dedup();
    assert_eq!(sorted.len(), 20);
    assert!(picks.iter().all(|&p| p < pool.len()));
    let order = arrange(&pool, NOW, picks.clone(), 0, &mut rng);
    let mut a = order.clone();
    a.sort();
    let mut b = picks.clone();
    b.sort();
    assert_eq!(a, b);
}

#[test]
fn sort_by_urgency_puts_the_most_overdue_first() {
    let pool = vec![
        reviewed("a".into(), CardState::Review, 5),
        reviewed("b".into(), CardState::Review, 50),
        reviewed("c".into(), CardState::Review, -5),
        reviewed("d".into(), CardState::Review, 50),
        new_card(0),
    ];
    let sorted = sorted_by(&pool, NOW, Order::Urgency, &vec![4, 3, 2, 1, 0]);
    assert_eq!(sorted, vec![1, 3, 0, 4, 2]);
    assert!(goes_before(&pool, NOW, Order::Urgency, 1, 3));
    assert!(!goes_before(&pool, NOW, Order::Urgency, 3, 1));
    assert!(goes_before(&pool, NOW, Order::Urgency, 3, 0));
    assert!(!goes_before(&pool, NOW, Order::Urgency, 2, 2));
}

#[test]
fn sort_by_hardness_goes_by_lapses_then_difficulty() {
    let mut pool = vec![new_card(0), new_card(1), new_card(2), new_card(3)];
    pool[0].lapses = 1;
    pool[1].lapses = 2;
    pool[1].difficulty = 2_000;
    pool[2].lapses = 2;
    pool[2].difficulty = 7_000;
    pool[3].lapses = 1;
    let sorted = sorted_by(&pool, NOW, Order::Hardness, &vec![0, 1, 2, 3]);
    assert_eq!(sorted, vec![2, 1, 0, 3]);
}

#[test]
fn due_cards_are_counted_whether_suspended_or_not() {
    let mut pool = pool_of(3, 10, 50, 7);
    assert_eq!(BatchSelector::count_due(&pool, NOW), 63);
    assert_eq!(BatchSelector::count_ready(&pool, NOW), 63);
    pool[0].suspended = true;
    pool[60].suspended = true;
    pool[52].suspended = true;
    assert_eq!(BatchSelector::count_due(&pool, NOW), 63);
    assert_eq!(BatchSelector::count_ready(&pool, NOW), 61);
    assert_eq!(BatchSelector::count_due(&Vec::new(), NOW), 0);
    assert_eq!(BatchSelector::count_ready(&Vec::new(), NOW), 0);
    let mut leech = new_card(0);
    leech.suspended = true;
    assert_eq!(BatchSelector::count_due(&vec![leech.clone()], NOW), 1);
    assert_eq!(BatchSelector::count_ready(&vec![leech], NOW), 0);
}

#[test]
fn due_count_follows_the_clock() {
    let pool = pool_of(2, 2, 1, 3);
    assert_eq!(BatchSelector::count_due(&pool, NOW), 5);
    assert_eq!(BatchSelector::count_due(&pool, NOW + 11), 7);
    assert_eq!(BatchSelector::count_due(&pool, NOW + 12), 8);
    assert_eq!(BatchSelector::count_due(&pool, NOW - 6), 2);
    assert_eq!(BatchSelector::count_due(&pool, NOW - 7), 1);
}
