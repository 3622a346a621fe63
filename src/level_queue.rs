use vstd::prelude::*;
use crate::address::{pda, queue_page_seeds, queue_page_address};
use crate::config::QUEUE_PAGE_CAPACITY_DEFAULT;
use crate::error::CustomError;
use crate::events::{Enqueued, GameEvent, QueuePageCreated};
use crate::key::{Key, lemma_key_view_injective};
use crate::queue::{PageStore, PageView, QueuePage, contains_key};

verus! {

/// The queue of one level: where its chain of pages starts and ends.
#[derive(Clone, Copy, Debug, PartialEq, Eq)]
pub struct LevelPool {
    pub config: Key,
    pub level: u8,
    pub bump: u8,
    pub head_page: Option<Key>,
    pub tail_page: Option<Key>,
    pub total_enqueued: u64,
    pub total_dequeued: u64,
}

/// What enqueueing leaves behind: the pool, the pages, whether this
/// operation has now created its one new page, and the notifications.
pub type EnqueueEffect = (LevelPool, Map<Key, PageView>, bool, Seq<GameEvent>);

/// The page that a rollover creates, holding only `player`.
pub open spec fn fresh_page(pool_key: Key, page_index: u32, bump: u8, player: Key) -> PageView {
    PageView { bump, level_pool: pool_key, page_index, next_page: None, players: seq![player] }
}

/// Enqueueing `player` at the tail of a level's queue.
///
/// Nothing changes when the player is already in the tail page. When the
/// tail page has room the player is appended to it. When it is full, a new
/// page is created at `new_page_account`, which must be the address derived
/// from the pool and the next page index, and the player becomes its sole
/// entry; the old tail links to it and the pool's tail moves to it. At most
/// one page may be created per operation: `used_new_page` records that.
pub open spec fn enqueue_result(
    level: u8,
    pool_key: Key,
    pool: LevelPool,
    store: Map<Key, PageView>,
    tail_account: Key,
    new_page_account: Key,
    player: Key,
    used_new_page: bool,
) -> Result<EnqueueEffect, CustomError> {
    match pool.tail_page {
        None => Err(CustomError::QueueIsEmpty),
        Some(tail) => {
            if tail != tail_account {
                Err(CustomError::QueuePageKeyMismatch)
            } else if !store.contains_key(tail) {
                Err(CustomError::AccountCastError)
            } else {
                let tp = store[tail];
                if tp.players.contains(player) {
                    Ok((pool, store, used_new_page, Seq::empty()))
                } else if tp.players.len() >= QUEUE_PAGE_CAPACITY_DEFAULT {
                    if used_new_page {
                        Err(CustomError::RolloverNeedsSecondNewPage)
                    } else if tp.next_page is Some {
                        Err(CustomError::QueueNextPageAlreadyExists)
                    } else if tp.page_index == u32::MAX {
                        Err(CustomError::Overflow)
                    } else {
                        let idx = (tp.page_index + 1) as u32;
                        match pda(queue_page_seeds(pool_key@, idx)) {
                            None => Err(CustomError::AddressDerivationFailed),
                            Some((addr, bump)) => {
                                if addr != new_page_account@ {
                                    Err(CustomError::QueuePageKeyMismatch)
                                } else if store.contains_key(new_page_account) {
                                    Err(CustomError::AccountAlreadyInUse)
                                } else {
                                    Ok((
                                        LevelPool {
                                            tail_page: Some(new_page_account),
                                            total_enqueued: pool.total_enqueued.saturating_add(1),
                                            ..pool
                                        },
                                        store.insert(new_page_account, fresh_page(pool_key, idx, bump, player)).insert(
                                            tail,
                                            PageView { next_page: Some(new_page_account), ..tp },
                                        ),
                                        true,
                                        seq![
                                            GameEvent::QueuePageCreated(
                                                QueuePageCreated { level, pool: pool_key, page_index: idx, page: new_page_account },
                                            ),
                                            GameEvent::Enqueued(
                                                Enqueued { player, level, page_index: idx, position_in_page: 0 },
                                            ),
                                        ],
                                    ))
                                }
                            },
                        }
                    }
                } else {
                    Ok((
                        LevelPool { total_enqueued: pool.total_enqueued.saturating_add(1), ..pool },
                        store.insert(tail, PageView { players: tp.players.push(player), ..tp }),
                        used_new_page,
                        seq![
                            GameEvent::Enqueued(
                                Enqueued {
                                    player,
                                    level,
                                    page_index: tp.page_index,
                                    position_in_page: tp.players.len() as u32,
                                },
                            ),
                        ],
                    ))
                }
            }
        },
    }
}

/// Enqueues `player` at the tail of the level's queue; see `enqueue_result`.
/// On an error the pool and the pages are left as they were.
pub fn enqueue_into_tail(
    level: u8,
    pool_key: &Key,
    pool: &mut LevelPool,
    store: &mut PageStore,
    tail_account: &Key,
    new_page_account: &Key,
    player: &Key,
    used_new_page: &mut bool,
    events: &mut Vec<GameEvent>,
) -> (r: Result<(), CustomError>)
    ensures
        match enqueue_result(level, *pool_key, *old(pool), old(store)@, *tail_account, *new_page_account,
            *player, *old(used_new_page)) {
            Ok((p, s, u, ev)) => r is Ok && *final(pool) == p && final(store)@ == s
                && *final(used_new_page) == u && final(events)@ == old(events)@ + ev,
            Err(e) => r == Err::<(), CustomError>(e) && *final(pool) == *old(pool)
                && final(store)@ == old(store)@ && *final(used_new_page) == *old(used_new_page)
                && final(events)@ == old(events)@,
        },
{
    let tail_key = match pool.tail_page {
        Some(k) => k,
        None => {
            return Err(CustomError::QueueIsEmpty);
        },
    };
    if !tail_key.same_as(tail_account) {
        return Err(CustomError::QueuePageKeyMismatch);
    }
    let mut tail_page = match store.get(&tail_key) {
        Some(p) => p,
        None => {
            return Err(CustomError::AccountCastError);
        },
    };
    if contains_key(&tail_page.players, player) {
        return Ok(());
    }
    if tail_page.players.len() >= QUEUE_PAGE_CAPACITY_DEFAULT {
        if *used_new_page {
            return Err(CustomError::RolloverNeedsSecondNewPage);
        }
        if tail_page.next_page.is_some() {
            return Err(CustomError::QueueNextPageAlreadyExists);
        }
        let new_index = match tail_page.page_index.checked_add(1) {
            Some(v) => v,
            None => {
                return Err(CustomError::Overflow);
            },
        };
        let (new_pda, bump_page) = match create_queue_page(pool_key, new_index, new_page_account, store) {
            Ok(v) => v,
            Err(e) => {
                return Err(e);
            },
        };
        let new_page = QueuePage {
            bump: bump_page,
            level_pool: *pool_key,
            page_index: new_index,
            next_page: None,
            players: vec![*player],
        };
        proof {
            assert(new_page@.players =~= seq![*player]);
        }
        store.put(new_pda, new_page);
        tail_page.next_page = Some(new_pda);
        store.put(tail_key, tail_page);
        pool.tail_page = Some(new_pda);
        pool.total_enqueued = pool.total_enqueued.saturating_add(1);
        *used_new_page = true;
        events.push(
            GameEvent::QueuePageCreated(
                QueuePageCreated { level, pool: *pool_key, page_index: new_index, page: new_pda },
            ),
        );
        events.push(
            GameEvent::Enqueued(Enqueued { player: *player, level, page_index: new_index, position_in_page: 0 }),
        );
        return Ok(());
    }
    let pos = tail_page.players.len() as u32;
    let page_index = tail_page.page_index;
    tail_page.players.push(*player);
    store.put(tail_key, tail_page);
    pool.total_enqueued = pool.total_enqueued.saturating_add(1);
    events.push(GameEvent::Enqueued(Enqueued { player: *player, level, page_index, position_in_page: pos }));
    Ok(())
}

/// Checks that a new page may be created at `new_page_account` as the page
/// with index `page_index` of the pool, and gives its address and bump.
pub fn create_queue_page(
    pool_key: &Key,
    page_index: u32,
    new_page_account: &Key,
    store: &PageStore,
) -> (r: Result<(Key, u8), CustomError>)
    ensures
        match pda(queue_page_seeds(pool_key@, page_index)) {
            None => r == Err::<(Key, u8), CustomError>(CustomError::AddressDerivationFailed),
            Some((addr, bump)) => if addr != new_page_account@ {
                r == Err::<(Key, u8), CustomError>(CustomError::QueuePageKeyMismatch)
            } else if store@.contains_key(*new_page_account) {
                r == Err::<(Key, u8), CustomError>(CustomError::AccountAlreadyInUse)
            } else {
                r == Ok::<(Key, u8), CustomError>((*new_page_account, bump))
            },
        },
{
    let (page_pda, bump_page) = match queue_page_address(pool_key, page_index) {
        Some(v) => v,
        None => {
            return Err(CustomError::AddressDerivationFailed);
        },
    };
    if !page_pda.same_as(new_page_account) {
        proof {
            if page_pda@ == new_page_account@ {
                lemma_key_view_injective(page_pda, *new_page_account);
            }
        }
        return Err(CustomError::QueuePageKeyMismatch);
    }
    if store.contains(new_page_account) {
        return Err(CustomError::AccountAlreadyInUse);
    }
    Ok((page_pda, bump_page))
}

} // verus!

verus! {

/// Removing the entry at position 0 of the head page.
///
/// When that empties the page, the next page becomes the head if there is
/// one; if not, head and tail both point at the emptied page, so that the
/// pool always points at a page. Gives back the removed entry.
pub open spec fn dequeue_result(pool: LevelPool, store: Map<Key, PageView>, head_account: Key) -> Result<
    (Key, LevelPool, Map<Key, PageView>),
    CustomError,
> {
    match pool.head_page {
        None => Err(CustomError::QueueIsEmpty),
        Some(head) => {
            if head != head_account {
                Err(CustomError::QueuePageKeyMismatch)
            } else if !store.contains_key(head) {
                Err(CustomError::AccountCastError)
            } else if store[head].players.len() == 0 {
                Err(CustomError::QueueIsEmpty)
            } else {
                let hp = store[head];
                let rest = hp.players.drop_first();
                let moved = if rest.len() == 0 {
                    match hp.next_page {
                        Some(next) => LevelPool { head_page: Some(next), ..pool },
                        None => LevelPool { head_page: Some(head), tail_page: Some(head), ..pool },
                    }
                } else {
                    pool
                };
                Ok((
                    hp.players[0],
                    LevelPool { total_dequeued: pool.total_dequeued.saturating_add(1), ..moved },
                    store.insert(head, PageView { players: rest, ..hp }),
                ))
            }
        },
    }
}

/// Removes and returns the entry at the head of the level's queue; see
/// `dequeue_result`. On an error the pool and the pages are left as they were.
pub fn dequeue_head(pool: &mut LevelPool, store: &mut PageStore, head_account: &Key) -> (r: Result<
    Key,
    CustomError,
>)
    ensures
        match dequeue_result(*old(pool), old(store)@, *head_account) {
            Ok((k, p, s)) => r == Ok::<Key, CustomError>(k) && *final(pool) == p && final(store)@ == s,
            Err(e) => r == Err::<Key, CustomError>(e) && *final(pool) == *old(pool) && final(store)@ == old(
                store,
            )@,
        },
{
    let head_key = match pool.head_page {
        Some(k) => k,
        None => {
            return Err(CustomError::QueueIsEmpty);
        },
    };
    if !head_key.same_as(head_account) {
        return Err(CustomError::QueuePageKeyMismatch);
    }
    let mut head_page = match store.get(&head_key) {
        Some(p) => p,
        None => {
            return Err(CustomError::AccountCastError);
        },
    };
    if head_page.players.len() == 0 {
        return Err(CustomError::QueueIsEmpty);
    }
    let owner = head_page.players.remove(0);
    proof {
        assert(head_page.players@ =~= old(store)@[head_key].players.drop_first());
    }
    if head_page.players.len() == 0 {
        match head_page.next_page {
            Some(next) => {
                pool.head_page = Some(next);
            },
            None => {
                pool.head_page = Some(head_key);
                pool.tail_page = Some(head_key);
            },
        }
    }
    store.put(head_key, head_page);
    pool.total_dequeued = pool.total_dequeued.saturating_add(1);
    Ok(owner)
}

} // verus!

verus! {

/// `keys` lists the addresses of a pool's pages from head to tail: all
/// distinct and stored, each page linking to the next, the tail linking to
/// none.
pub open spec fn chain_ok(store: Map<Key, PageView>, pool: LevelPool, keys: Seq<Key>) -> bool {
    &&& keys.len() >= 1
    &&& pool.head_page == Some(keys[0])
    &&& pool.tail_page == Some(keys.last())
    &&& forall|i: int| 0 <= i < keys.len() ==> store.contains_key(#[trigger] keys[i])
    &&& forall|i: int, j: int| 0 <= i < j < keys.len() ==> keys[i] != keys[j]
    &&& forall|i: int| 0 <= i < keys.len() - 1 ==> store[#[trigger] keys[i]].next_page == Some(keys[i + 1])
    &&& store[keys.last()].next_page is None
}

/// The entries of the pages at `keys`, in order.
pub open spec fn queue_contents(store: Map<Key, PageView>, keys: Seq<Key>) -> Seq<Key>
    decreases keys.len(),
{
    if keys.len() == 0 {
        Seq::empty()
    } else {
        store[keys[0]].players + queue_contents(store, keys.drop_first())
    }
}

proof fn lemma_contents_unaffected(store: Map<Key, PageView>, keys: Seq<Key>, k: Key, v: PageView)
    requires
        !keys.contains(k),
    ensures
        queue_contents(store.insert(k, v), keys) == queue_contents(store, keys),
    decreases keys.len(),
{
    if keys.len() > 0 {
        assert(keys[0] != k);
        assert(!keys.drop_first().contains(k)) by {
            if keys.drop_first().contains(k) {
                let i = choose|i: int| 0 <= i < keys.drop_first().len() && keys.drop_first()[i] == k;
                assert(keys[i + 1] == k);
            }
        }
        lemma_contents_unaffected(store, keys.drop_first(), k, v);
    }
}

pub proof fn lemma_contents_last(store: Map<Key, PageView>, keys: Seq<Key>)
    requires
        keys.len() >= 1,
    ensures
        queue_contents(store, keys) == queue_contents(store, keys.drop_last()) + store[keys.last()].players,
    decreases keys.len(),
{
    if keys.len() == 1 {
        assert(queue_contents(store, keys.drop_first()) == Seq::<Key>::empty());
        assert(queue_contents(store, keys.drop_last()) == Seq::<Key>::empty());
        assert(store[keys[0]].players + Seq::<Key>::empty() =~= store[keys[0]].players);
        assert(Seq::<Key>::empty() + store[keys.last()].players =~= store[keys[0]].players);
    } else {
        lemma_contents_last(store, keys.drop_first());
        assert(keys.drop_first().drop_last() =~= keys.drop_last().drop_first());
        assert(keys.drop_last()[0] == keys[0]);
        assert(queue_contents(store, keys) =~= queue_contents(store, keys.drop_last())
            + store[keys.last()].players);
    }
}

/// Enqueueing keeps the queue first-in first-out, across page boundaries:
/// on success the player is added once at the very end of the queue's
/// contents, unless already in the tail page, when nothing changes. When
/// the tail page is full, the player lands at position 0 of a freshly
/// created page, to which the old tail now links and which is the new tail.
pub proof fn lemma_enqueue_keeps_fifo(
    level: u8,
    pool_key: Key,
    pool: LevelPool,
    store: Map<Key, PageView>,
    tail_account: Key,
    new_page_account: Key,
    player: Key,
    used_new_page: bool,
    keys: Seq<Key>,
)
    requires
        chain_ok(store, pool, keys),
        enqueue_result(level, pool_key, pool, store, tail_account, new_page_account, player, used_new_page) is Ok,
    ensures
        ({
            let (p2, s2, u2, ev) = enqueue_result(
                level,
                pool_key,
                pool,
                store,
                tail_account,
                new_page_account,
                player,
                used_new_page,
            ).unwrap();
            let tail = keys.last();
            let keys2 = if p2.tail_page == pool.tail_page { keys } else { keys.push(new_page_account) };
            &&& chain_ok(s2, p2, keys2)
            &&& if store[tail].players.contains(player) {
                queue_contents(s2, keys2) == queue_contents(store, keys)
            } else {
                queue_contents(s2, keys2) == queue_contents(store, keys).push(player)
            }
            &&& (!store[tail].players.contains(player) && store[tail].players.len()
                >= QUEUE_PAGE_CAPACITY_DEFAULT) ==> {
                &&& p2.tail_page == Some(new_page_account)
                &&& s2[new_page_account].players == seq![player]
                &&& s2[tail].next_page == Some(new_page_account)
                &&& s2[tail].players == store[tail].players
            }
        }),
{
    let (p2, s2, u2, ev) = enqueue_result(
        level,
        pool_key,
        pool,
        store,
        tail_account,
        new_page_account,
        player,
        used_new_page,
    ).unwrap();
    let tail = keys.last();
    let tp = store[tail];
    let n = keys.len();
    if tp.players.contains(player) {
    } else if tp.players.len() >= QUEUE_PAGE_CAPACITY_DEFAULT {
        let keys2 = keys.push(new_page_account);
        assert(!keys.contains(new_page_account)) by {
            if keys.contains(new_page_account) {
                let i = choose|i: int| 0 <= i < keys.len() && keys[i] == new_page_account;
                assert(store.contains_key(keys[i]));
            }
        }
        assert(p2.tail_page != pool.tail_page);
        let mid = store.insert(new_page_account, s2[new_page_account]);
        assert(s2 == mid.insert(tail, PageView { next_page: Some(new_page_account), ..tp }));
        assert forall|i: int| 0 <= i < keys2.len() - 1 implies s2[#[trigger] keys2[i]].next_page == Some(
            keys2[i + 1],
        ) by {
            if i < n - 1 {
                assert(keys[i] != tail);
                assert(keys[i] != new_page_account);
            }
        }
        assert forall|i: int, j: int| 0 <= i < j < keys2.len() implies keys2[i] != keys2[j] by {
            if j == n {
                assert(keys2[i] == keys[i]);
            }
        }
        assert(chain_ok(s2, p2, keys2));
        lemma_contents_last(s2, keys2);
        assert(keys2.drop_last() =~= keys);
        lemma_contents_last(s2, keys);
        lemma_contents_last(store, keys);
        assert(!keys.drop_last().contains(tail)) by {
            if keys.drop_last().contains(tail) {
                let i = choose|i: int| 0 <= i < keys.drop_last().len() && keys.drop_last()[i] == tail;
                assert(keys[i] == keys[n - 1]);
            }
        }
        assert(!keys.drop_last().contains(new_page_account)) by {
            if keys.drop_last().contains(new_page_account) {
                let i = choose|i: int|
                    0 <= i < keys.drop_last().len() && keys.drop_last()[i] == new_page_account;
                assert(keys[i] == new_page_account);
            }
        }
        lemma_contents_unaffected(store, keys.drop_last(), new_page_account, s2[new_page_account]);
        lemma_contents_unaffected(mid, keys.drop_last(), tail, s2[tail]);
        assert(queue_contents(s2, keys2) =~= queue_contents(store, keys).push(player));
    } else {
        assert(p2.tail_page == pool.tail_page);
        assert forall|i: int| 0 <= i < keys.len() - 1 implies s2[#[trigger] keys[i]].next_page == Some(
            keys[i + 1],
        ) by {
            if keys[i] == tail {
                assert(keys[i] == keys[n - 1]);
            }
        }
        assert(chain_ok(s2, p2, keys));
        lemma_contents_last(s2, keys);
        lemma_contents_last(store, keys);
        assert(!keys.drop_last().contains(tail)) by {
            if keys.drop_last().contains(tail) {
                let i = choose|i: int| 0 <= i < keys.drop_last().len() && keys.drop_last()[i] == tail;
                assert(keys[i] == keys[n - 1]);
            }
        }
        lemma_contents_unaffected(store, keys.drop_last(), tail, s2[tail]);
        assert(queue_contents(s2, keys) =~= queue_contents(store, keys).push(player));
    }
}

/// Enqueueing a player who is already in the tail page succeeds and changes
/// nothing: no second entry, no counter moves, no notification.
pub proof fn lemma_enqueue_present_is_noop(
    level: u8,
    pool_key: Key,
    pool: LevelPool,
    store: Map<Key, PageView>,
    new_page_account: Key,
    player: Key,
    used_new_page: bool,
)
    requires
        pool.tail_page is Some,
        store.contains_key(pool.tail_page.unwrap()),
        store[pool.tail_page.unwrap()].players.contains(player),
    ensures
        enqueue_result(level, pool_key, pool, store, pool.tail_page.unwrap(), new_page_account, player, used_new_page)
            == Ok::<EnqueueEffect, CustomError>((pool, store, used_new_page, Seq::empty())),
{
}

/// Dequeueing keeps the queue first-in first-out: on success the entry
/// given back is the first of the queue's contents, and the contents lose
/// exactly that entry.
pub proof fn lemma_dequeue_keeps_fifo(pool: LevelPool, store: Map<Key, PageView>, head_account: Key, keys: Seq<Key>)
    requires
        chain_ok(store, pool, keys),
        dequeue_result(pool, store, head_account) is Ok,
    ensures
        ({
            let (k, p2, s2) = dequeue_result(pool, store, head_account).unwrap();
            let keys2 = if p2.head_page == pool.head_page { keys } else { keys.drop_first() };
            &&& chain_ok(s2, p2, keys2)
            &&& queue_contents(store, keys).len() > 0
            &&& k == queue_contents(store, keys)[0]
            &&& queue_contents(s2, keys2) == queue_contents(store, keys).drop_first()
        }),
{
    let (k, p2, s2) = dequeue_result(pool, store, head_account).unwrap();
    let head = keys[0];
    let hp = store[head];
    let rest = hp.players.drop_first();
    let n = keys.len();
    let tailpart = keys.drop_first();
    assert(!tailpart.contains(head)) by {
        if tailpart.contains(head) {
            let i = choose|i: int| 0 <= i < tailpart.len() && tailpart[i] == head;
            assert(keys[i + 1] == keys[0]);
        }
    }
    lemma_contents_unaffected(store, tailpart, head, s2[head]);
    assert(queue_contents(store, keys) == hp.players + queue_contents(store, tailpart));
    if rest.len() == 0 && hp.next_page is Some {
        assert(n >= 2);
        assert(keys[1] != keys[0]);
        assert(p2.head_page != pool.head_page);
        assert forall|i: int| 0 <= i < tailpart.len() implies s2.contains_key(#[trigger] tailpart[i]) by {
            assert(tailpart[i] == keys[i + 1]);
        }
        assert forall|i: int| 0 <= i < tailpart.len() - 1 implies s2[#[trigger] tailpart[i]].next_page
            == Some(tailpart[i + 1]) by {
            assert(tailpart[i] == keys[i + 1]);
            assert(keys[i + 1] != keys[0]);
        }
        assert(tailpart.last() == keys.last());
        assert(keys.last() != head);
        assert(chain_ok(s2, p2, tailpart));
        assert(queue_contents(store, keys) =~= seq![hp.players[0]] + queue_contents(store, tailpart));
        assert(queue_contents(store, keys).drop_first() =~= queue_contents(store, tailpart));
    } else {
        if rest.len() == 0 {
            assert(n == 1);
        }
        assert(p2.head_page == pool.head_page);
        assert forall|i: int| 0 <= i < keys.len() - 1 implies s2[#[trigger] keys[i]].next_page == Some(
            keys[i + 1],
        ) by {
            if i == 0 {
            } else {
                assert(keys[i] != keys[0]);
            }
        }
        if n == 1 {
            assert(keys.last() == head);
        } else {
            assert(keys.last() != head);
        }
        assert(chain_ok(s2, p2, keys));
        assert(queue_contents(s2, keys) == rest + queue_contents(s2, tailpart));
        assert(queue_contents(store, keys).drop_first() =~= rest + queue_contents(store, tailpart));
    }
}

} // verus!
