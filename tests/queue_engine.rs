use solana_game::address::queue_page_address;
use solana_game::error::CustomError;
use solana_game::events::{Enqueued, GameEvent};
use solana_game::key::Key;
use solana_game::level_queue::{dequeue_head, enqueue_into_tail, LevelPool};
use solana_game::queue::{PageStore, QueuePage};

fn key(n: u8) -> Key {
    Key::new([n; 32])
}

fn pool_key() -> Key {
    key(50)
}

fn page_key(index: u32) -> Key {
    queue_page_address(&pool_key(), index).unwrap().0
}

fn page(index: u32, players: Vec<Key>, next: Option<Key>) -> QueuePage {
    QueuePage { bump: 1, level_pool: pool_key(), page_index: index, next_page: next, players }
}

fn pool(head: u32, tail: u32) -> LevelPool {
    LevelPool {
        config: key(60),
        level: 1,
        bump: 2,
        head_page: Some(page_key(head)),
        tail_page: Some(page_key(tail)),
        total_enqueued: 10,
        total_dequeued: 4,
    }
}

fn participants(from: u8, count: u8) -> Vec<Key> {
    (from..from + count).map(|n| Key::new([n, 1, 2, 3, 4, 5, 6, 7, 8, 9, 10, 11, 12, 13, 14, 15, 16, 17, 18, 19, 20, 21, 22, 23, 24, 25, 26, 27, 28, 29, 30, 31])).collect()
}

fn enqueue(p: &mut LevelPool, store: &mut PageStore, who: &Key, used: &mut bool, events: &mut Vec<GameEvent>) -> Result<(), CustomError> {
    let tail = p.tail_page.unwrap();
    let new_index = store.get(&tail).map(|t| t.page_index + 1).unwrap_or(0);
    enqueue_into_tail(1, &pool_key(), p, store, &tail, &page_key(new_index), who, used, events)
}

#[test]
fn enqueue_appends_to_tail_page() {
    let mut store = PageStore::new();
    store.put(page_key(0), page(0, vec![key(1)], None));
    let mut p = pool(0, 0);
    let mut used = false;
    let mut events = Vec::new();
    enqueue(&mut p, &mut store, &key(2), &mut used, &mut events).unwrap();
    assert_eq!(store.get(&page_key(0)).unwrap().players, vec![key(1), key(2)]);
    assert_eq!(p.total_enqueued, 11);
    assert!(!used);
    assert_eq!(
        events,
        vec![GameEvent::Enqueued(Enqueued { player: key(2), level: 1, page_index: 0, position_in_page: 1 })]
    );
}

#[test]
fn enqueue_of_present_participant_is_a_no_op() {
    let mut store = PageStore::new();
    store.put(page_key(0), page(0, vec![key(1), key(2)], None));
    let mut p = pool(0, 0);
    let before = p;
    let mut used = false;
    let mut events = Vec::new();
    enqueue(&mut p, &mut store, &key(2), &mut used, &mut events).unwrap();
    assert_eq!(store.get(&page_key(0)).unwrap().players, vec![key(1), key(2)]);
    assert_eq!(p, before);
    assert!(events.is_empty());
}

#[test]
fn sixty_fifth_enqueue_rolls_over_to_a_new_page() {
    let mut store = PageStore::new();
    let full = participants(100, 64);
    store.put(page_key(0), page(0, full.clone(), None));
    let mut p = pool(0, 0);
    let mut used = false;
    let mut events = Vec::new();
    enqueue(&mut p, &mut store, &key(7), &mut used, &mut events).unwrap();
    let old_tail = store.get(&page_key(0)).unwrap();
    assert_eq!(old_tail.players, full);
    assert_eq!(old_tail.next_page, Some(page_key(1)));
    let fresh = store.get(&page_key(1)).unwrap();
    assert_eq!(fresh.players, vec![key(7)]);
    assert_eq!(fresh.page_index, 1);
    assert_eq!(fresh.next_page, None);
    assert_eq!(fresh.bump, queue_page_address(&pool_key(), 1).unwrap().1);
    assert_eq!(p.tail_page, Some(page_key(1)));
    assert_eq!(p.head_page, Some(page_key(0)));
    assert!(used);
    assert_eq!(events.len(), 2);
    // The order of the whole queue is kept: the 64 first, then the newcomer.
    let mut all = old_tail.players.clone();
    all.extend(fresh.players.iter().copied());
    let mut expected = full.clone();
    expected.push(key(7));
    assert_eq!(all, expected);
}

#[test]
fn second_rollover_in_one_operation_fails() {
    let mut store = PageStore::new();
    store.put(page_key(3), page(3, participants(100, 64), None));
    let mut p = pool(3, 3);
    let mut used = true;
    let mut events = Vec::new();
    let r = enqueue(&mut p, &mut store, &key(7), &mut used, &mut events);
    assert_eq!(r, Err(CustomError::RolloverNeedsSecondNewPage));
}

#[test]
fn rollover_refuses_existing_next_page() {
    let mut store = PageStore::new();
    store.put(page_key(0), page(0, participants(100, 64), Some(key(99))));
    let mut p = pool(0, 0);
    let mut used = false;
    let mut events = Vec::new();
    let r = enqueue_into_tail(1, &pool_key(), &mut p, &mut store, &page_key(0), &page_key(1), &key(7), &mut used, &mut events);
    assert_eq!(r, Err(CustomError::QueueNextPageAlreadyExists));
}

#[test]
fn rollover_refuses_wrong_new_page_address() {
    let mut store = PageStore::new();
    store.put(page_key(0), page(0, participants(100, 64), None));
    let mut p = pool(0, 0);
    let mut used = false;
    let mut events = Vec::new();
    let r = enqueue_into_tail(1, &pool_key(), &mut p, &mut store, &page_key(0), &page_key(2), &key(7), &mut used, &mut events);
    assert_eq!(r, Err(CustomError::QueuePageKeyMismatch));
}

#[test]
fn enqueue_checks_tail_account_and_pool() {
    let mut store = PageStore::new();
    store.put(page_key(0), page(0, vec![key(1)], None));
    let mut p = pool(0, 0);
    let mut used = false;
    let mut events = Vec::new();
    let r = enqueue_into_tail(1, &pool_key(), &mut p, &mut store, &key(3), &page_key(1), &key(7), &mut used, &mut events);
    assert_eq!(r, Err(CustomError::QueuePageKeyMismatch));
    let mut empty = LevelPool { head_page: None, tail_page: None, ..p };
    let r = enqueue_into_tail(1, &pool_key(), &mut empty, &mut store, &page_key(0), &page_key(1), &key(7), &mut used, &mut events);
    assert_eq!(r, Err(CustomError::QueueIsEmpty));
    let mut missing = PageStore::new();
    let r = enqueue_into_tail(1, &pool_key(), &mut p, &mut missing, &page_key(0), &page_key(1), &key(7), &mut used, &mut events);
    assert_eq!(r, Err(CustomError::AccountCastError));
}

#[test]
fn dequeue_removes_position_zero() {
    let mut store = PageStore::new();
    store.put(page_key(0), page(0, vec![key(1), key(2)], None));
    let mut p = pool(0, 0);
    assert_eq!(dequeue_head(&mut p, &mut store, &page_key(0)), Ok(key(1)));
    assert_eq!(store.get(&page_key(0)).unwrap().players, vec![key(2)]);
    assert_eq!(p.head_page, Some(page_key(0)));
    assert_eq!(p.total_dequeued, 5);
}

#[test]
fn emptied_head_page_hands_over_to_next() {
    let mut store = PageStore::new();
    store.put(page_key(0), page(0, vec![key(1)], Some(page_key(1))));
    store.put(page_key(1), page(1, vec![key(2)], None));
    let mut p = pool(0, 1);
    assert_eq!(dequeue_head(&mut p, &mut store, &page_key(0)), Ok(key(1)));
    assert_eq!(p.head_page, Some(page_key(1)));
    assert_eq!(p.tail_page, Some(page_key(1)));
    assert!(store.get(&page_key(0)).unwrap().players.is_empty());
}

#[test]
fn emptied_last_page_stays_head_and_tail() {
    let mut store = PageStore::new();
    store.put(page_key(2), page(2, vec![key(1)], None));
    let mut p = LevelPool { tail_page: Some(key(77)), ..pool(2, 2) };
    assert_eq!(dequeue_head(&mut p, &mut store, &page_key(2)), Ok(key(1)));
    assert_eq!(p.head_page, Some(page_key(2)));
    assert_eq!(p.tail_page, Some(page_key(2)));
}

#[test]
fn dequeue_of_empty_queue_fails() {
    let mut store = PageStore::new();
    store.put(page_key(0), page(0, vec![], None));
    let mut p = pool(0, 0);
    assert_eq!(dequeue_head(&mut p, &mut store, &page_key(0)), Err(CustomError::QueueIsEmpty));
    assert_eq!(dequeue_head(&mut p, &mut store, &key(5)), Err(CustomError::QueuePageKeyMismatch));
    let mut none = LevelPool { head_page: None, ..p };
    assert_eq!(dequeue_head(&mut none, &mut store, &page_key(0)), Err(CustomError::QueueIsEmpty));
}

#[test]
fn page_space_and_seeds() {
    assert_eq!(QueuePage::space_with(0), 82);
    assert_eq!(QueuePage::space_default(), 82 + 32 * 64);
    let seeds = QueuePage::seeds(&pool_key(), 258);
    assert_eq!(seeds[0], b"queue_page_v1".to_vec());
    assert_eq!(seeds[1], vec![50u8; 32]);
    assert_eq!(seeds[2], vec![2u8, 1, 0, 0]);
}
