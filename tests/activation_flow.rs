use solana_game::accounts::{
    GlobalStats, GuardAccount, LevelStateAccount, Player, PlayerRecord, Transfer, WalletAccount,
};
use solana_game::activation::{
    handle_activate_level_v3, handle_claim_slot, handle_dequeue_owner, handle_enqueue_player,
    handle_recycle_level_v3, ActivationAccounts, ActivationOutcome,
};
use solana_game::address::{
    activation_guard_address, level_pool_address, level_state_address, player_address, queue_page_address,
};
use solana_game::config::{handle_init_config_v3, ConfigV3};
use solana_game::error::CustomError;
use solana_game::events::GameEvent;
use solana_game::key::Key;
use solana_game::level_queue::LevelPool;
use solana_game::level_state::{serialize_level_state, try_deserialize_level_state, LevelState, LEVEL_STATE_SIZE};
use solana_game::player::handle_create_player_v3;
use solana_game::queue::{PageStore, QueuePage};
use std::collections::HashMap;

const PRICE_L1: u64 = 50_000_000;

fn key(n: u8) -> Key {
    Key::new([n; 32])
}

fn admin() -> Key {
    key(201)
}

fn treasury() -> Key {
    key(202)
}

fn config_key() -> Key {
    key(200)
}

fn wallet(k: Key) -> WalletAccount {
    WalletAccount { key: k, owner: Key::zero(), data_len: 0 }
}

fn zero_level_state() -> LevelState {
    LevelState {
        player: Key::zero(),
        authority: Key::zero(),
        level: 0,
        bump: 0,
        activated_at: 0,
        cycles: 0,
        slots_filled: 0,
        head_page: None,
        tail_page: None,
    }
}

fn stored(ls: &LevelState) -> Vec<u8> {
    let mut d = serialize_level_state(ls);
    d.resize(8 + LEVEL_STATE_SIZE, 0);
    d
}

fn copy_page(p: &QueuePage) -> QueuePage {
    QueuePage {
        bump: p.bump,
        level_pool: p.level_pool,
        page_index: p.page_index,
        next_page: p.next_page,
        players: p.players.clone(),
    }
}

/// Everything the ledger holds for level 1, kept between requests.
struct World {
    config: ConfigV3,
    pool_key: Key,
    pool: LevelPool,
    pages: Vec<(Key, QueuePage)>,
    players: HashMap<[u8; 32], Player>,
    level_states: HashMap<[u8; 32], Vec<u8>>,
    guards: Vec<Key>,
    total_players: u64,
}

impl World {
    fn new(slots_to_recycle: u8) -> World {
        let (config, _) =
            handle_init_config_v3(admin(), treasury(), 60, 13, 8, 5, 14, 10, 2, 0, false, slots_to_recycle, 16, 1, 1)
                .unwrap();
        World {
            config,
            pool_key: level_pool_address(&config_key(), 1).unwrap().0,
            pool: LevelPool {
                config: Key::zero(),
                level: 0,
                bump: 0,
                head_page: None,
                tail_page: None,
                total_enqueued: 0,
                total_dequeued: 0,
            },
            pages: Vec::new(),
            players: HashMap::new(),
            level_states: HashMap::new(),
            guards: Vec::new(),
            total_players: 0,
        }
    }

    fn register(&mut self, w: Key) -> Key {
        let stats = GlobalStats { total_players: self.total_players, last_player: Key::zero(), bump: 1 };
        let (p, s, _) = handle_create_player_v3(&w, false, 1, 0, None, None, &admin(), &stats).unwrap();
        self.total_players = s.total_players;
        let pk = player_address(&w).unwrap().0;
        self.players.insert(pk.bytes, p);
        pk
    }

    fn store(&self) -> PageStore {
        let mut s = PageStore::new();
        for (k, p) in &self.pages {
            s.put(*k, copy_page(p));
        }
        s
    }

    fn page(&self, k: &Key) -> &QueuePage {
        &self.pages.iter().find(|(pk, _)| pk == k).unwrap().1
    }

    fn level_state_of(&self, player_key: &Key) -> Option<LevelState> {
        self.level_states.get(&player_key.bytes).map(|d| try_deserialize_level_state(d).unwrap())
    }

    fn accounts(&self, w: Key, nonce: u64) -> ActivationAccounts {
        let player_key = player_address(&w).unwrap().0;
        let player = self.players[&player_key.bytes];
        let (ls_key, ls_bump) = level_state_address(&player_key, 1).unwrap();
        let _ = ls_key;
        let level_state = self.level_state_of(&player_key).unwrap_or(zero_level_state());
        let guard_key = activation_guard_address(&player_key, 1, nonce).unwrap().0;
        let next_index = match self.pool.tail_page {
            Some(t) => self.page(&t).page_index + 1,
            None => 0,
        };
        let new_page = queue_page_address(&self.pool_key, next_index).unwrap().0;
        let head_page = self.pool.head_page.unwrap_or(new_page);
        let tail_page = self.pool.tail_page.unwrap_or(new_page);
        let owner_key = self.pool.head_page.and_then(|h| self.page(&h).players.first().copied()).unwrap_or(player_key);
        let owner_player = match self.players.get(&owner_key.bytes) {
            Some(p) => PlayerRecord::Present(*p),
            None => PlayerRecord::Absent,
        };
        let owner_wallet = match owner_player {
            PlayerRecord::Present(p) => p.authority,
            _ => key(0),
        };
        ActivationAccounts {
            player_key,
            player,
            authority: w,
            level_state,
            level_state_bump: ls_bump,
            tx_guard: GuardAccount { key: guard_key, exists: self.guards.contains(&guard_key) },
            config_key: config_key(),
            config: self.config,
            level_pool_key: self.pool_key,
            level_pool: self.pool,
            level_pool_bump: level_pool_address(&config_key(), 1).unwrap().1,
            admin_account: wallet(admin()),
            treasury_account: wallet(treasury()),
            ref1_account: wallet(admin()),
            ref2_account: wallet(admin()),
            ref3_account: wallet(admin()),
            tail_page,
            new_page,
            head_page,
            pages: self.store(),
            owner_player_key: owner_key,
            owner_player,
            owner_level_state: LevelStateAccount {
                key: level_state_address(&owner_key, 1).unwrap().0,
                owner: Key::program_id(),
                data: self.level_states.get(&owner_key.bytes).cloned().unwrap_or_default(),
            },
            owner_wallet: wallet(owner_wallet),
            ref1_level_state: None,
            ref2_level_state: None,
            ref3_level_state: None,
        }
    }

    fn apply(&mut self, o: &ActivationOutcome) {
        self.guards.push(o.tx_guard_key);
        self.level_states.insert(o.level_state.player.bytes, stored(&o.level_state));
        if let Some(u) = &o.owner_level_state {
            self.level_states.insert(u.state.player.bytes, u.data.clone());
        }
        self.pool = o.level_pool;
        self.pages = o.pages.entries.iter().map(|e| (e.key, copy_page(&e.page))).collect();
    }

    fn activate(&mut self, w: Key, nonce: u64) -> Result<ActivationOutcome, CustomError> {
        let r = handle_activate_level_v3(self.accounts(w, nonce), 1, PRICE_L1, nonce, 1_000);
        if let Ok(o) = &r {
            self.apply(o);
        }
        r
    }

    fn queue(&self) -> Vec<Key> {
        let mut out = Vec::new();
        let mut at = self.pool.head_page;
        while let Some(k) = at {
            let p = self.page(&k);
            out.extend(p.players.iter().copied());
            if Some(k) == self.pool.tail_page {
                break;
            }
            at = p.next_page;
        }
        out
    }
}

#[test]
fn end_to_end_level_one() {
    let mut world = World::new(3);
    let a = world.register(key(1));
    let b = world.register(key(2));
    let c = world.register(key(3));
    let d = world.register(key(4));

    // A opens the level: page 0 holds A alone, the whole price goes to the treasury.
    let o1 = world.activate(key(1), 1).unwrap();
    let page0 = queue_page_address(&world.pool_key, 0).unwrap().0;
    assert_eq!(world.pool.head_page, Some(page0));
    assert_eq!(world.pool.tail_page, Some(page0));
    assert_eq!(world.page(&page0).players, vec![a]);
    assert_eq!(o1.transfers, vec![Transfer { to: treasury(), lamports: PRICE_L1 }]);
    assert!(o1.owner_level_state.is_none());

    // B pays A: one slot, 60% to A, the referral shares folded into the treasury.
    let o2 = world.activate(key(2), 1).unwrap();
    assert_eq!(
        o2.transfers,
        vec![
            Transfer { to: key(1), lamports: 30_000_000 },
            Transfer { to: treasury(), lamports: 7_000_000 + 6_500_000 + 4_000_000 + 2_500_000 },
        ]
    );
    let a_state = world.level_state_of(&a).unwrap();
    assert_eq!(a_state.slots_filled, 1);
    assert_eq!(a_state.cycles, 0);
    assert_eq!(world.queue(), vec![a, b]);
    assert!(!o2.events.iter().any(|e| matches!(e, GameEvent::LevelRecycled(_))));

    // C fills A's second slot.
    world.activate(key(3), 1).unwrap();
    assert_eq!(world.level_state_of(&a).unwrap().slots_filled, 2);
    assert_eq!(world.queue(), vec![a, b, c]);

    // D fills the third slot: A completes a cycle and goes to the tail.
    let o4 = world.activate(key(4), 1).unwrap();
    let a_state = world.level_state_of(&a).unwrap();
    assert_eq!(a_state.cycles, 1);
    assert_eq!(a_state.slots_filled, 0);
    assert_eq!(world.queue(), vec![b, c, a, d]);
    assert!(o4.events.iter().any(|e| matches!(e, GameEvent::LevelRecycled(r) if r.cycles == 1 && r.owner == key(1))));
    assert_eq!(world.pool.total_enqueued, 5);
    assert_eq!(world.pool.total_dequeued, 1);
}

#[test]
fn activator_state_is_initialised() {
    let mut world = World::new(3);
    let a = world.register(key(1));
    let o = world.activate(key(1), 9).unwrap();
    assert_eq!(o.level_state.player, a);
    assert_eq!(o.level_state.authority, key(1));
    assert_eq!(o.level_state.level, 1);
    assert_eq!(o.level_state.activated_at, 1_000);
    assert_eq!((o.level_state.cycles, o.level_state.slots_filled), (0, 0));
    assert_eq!(o.tx_guard.nonce, 9);
    assert_eq!(o.tx_guard.executed_at, 1_000);
    assert_eq!(o.tx_guard_key, activation_guard_address(&a, 1, 9).unwrap().0);
}

#[test]
fn same_nonce_twice_is_refused_without_effects() {
    let mut world = World::new(3);
    world.register(key(1));
    world.register(key(2));
    world.activate(key(1), 1).unwrap();
    world.activate(key(2), 5).unwrap();
    let queue_before = world.queue();
    let pool_before = world.pool;
    // B's state is wiped to "not activated", so only the guard can stop the replay.
    let b = player_address(&key(2)).unwrap().0;
    world.level_states.remove(&b.bytes);
    let r = world.activate(key(2), 5);
    assert_eq!(r.err(), Some(CustomError::AccountAlreadyInUse));
    assert_eq!(world.queue(), queue_before);
    assert_eq!(world.pool, pool_before);
}

#[test]
fn second_activation_of_same_level_is_refused() {
    let mut world = World::new(3);
    world.register(key(1));
    world.activate(key(1), 1).unwrap();
    assert_eq!(world.activate(key(1), 2).err(), Some(CustomError::AlreadyActivated));
}

#[test]
fn self_owner_pays_treasury_and_keeps_slots() {
    let mut world = World::new(3);
    let a = world.register(key(1));
    world.register(key(2));
    world.register(key(3));
    world.activate(key(1), 1).unwrap();
    world.activate(key(2), 1).unwrap();
    world.activate(key(3), 1).unwrap();
    assert_eq!(world.queue()[0], a);
    // A's own state is lost, so A may activate again while heading the queue.
    let a_owner_state = world.level_state_of(&a).unwrap();
    assert_eq!(a_owner_state.slots_filled, 2);
    let mut accts = world.accounts(key(1), 2);
    accts.level_state = zero_level_state();
    let o = handle_activate_level_v3(accts, 1, PRICE_L1, 2, 2_000).unwrap();
    assert_eq!(o.transfers, vec![Transfer { to: treasury(), lamports: PRICE_L1 }]);
    let u = o.owner_level_state.unwrap();
    assert_eq!(u.state.slots_filled, 2);
    assert_eq!(u.state.cycles, 0);
    world.pool = o.level_pool;
    world.pages = o.pages.entries.iter().map(|e| (e.key, copy_page(&e.page))).collect();
    let q = world.queue();
    assert_eq!(q.last(), Some(&a));
    assert_eq!(q.iter().filter(|k| **k == a).count(), 1);
}

#[test]
fn threshold_of_one_is_raised_to_three() {
    let mut world = World::new(1);
    assert_eq!(world.config.slots_to_recycle, 3);
    // Force a configuration record that still holds 1.
    world.config.slots_to_recycle = 1;
    let a = world.register(key(1));
    world.register(key(2));
    world.register(key(3));
    world.activate(key(1), 1).unwrap();
    world.activate(key(2), 1).unwrap();
    assert_eq!(world.level_state_of(&a).unwrap().slots_filled, 1);
    assert_eq!(world.level_state_of(&a).unwrap().cycles, 0);
    world.activate(key(3), 1).unwrap();
    assert_eq!(world.level_state_of(&a).unwrap().slots_filled, 2);
    assert_eq!(world.queue()[0], a);
}

#[test]
fn validation_errors() {
    let mut world = World::new(3);
    world.register(key(1));
    let accts = world.accounts(key(1), 1);
    assert_eq!(handle_activate_level_v3(accts, 0, PRICE_L1, 1, 5).err(), Some(CustomError::KeyMismatch));
    let a = world.accounts(key(1), 1);
    assert_eq!(handle_activate_level_v3(a, 1, PRICE_L1 + 1, 1, 5).err(), Some(CustomError::InvalidPrice));
    let mut a = world.accounts(key(1), 1);
    a.authority = key(9);
    assert_eq!(handle_activate_level_v3(a, 1, PRICE_L1, 1, 5).err(), Some(CustomError::Unauthorized));
    let mut a = world.accounts(key(1), 1);
    a.config.min_entry_delay = 10;
    assert_eq!(handle_activate_level_v3(a, 1, PRICE_L1, 1, 5).err(), Some(CustomError::MinEntryDelay));
    let mut a = world.accounts(key(1), 1);
    a.config.min_entry_delay = 10;
    a.player.created_at = i64::MIN + 1;
    assert_eq!(handle_activate_level_v3(a, 1, PRICE_L1, 1, i64::MAX).err(), Some(CustomError::Overflow));
    let mut a = world.accounts(key(1), 1);
    a.treasury_account.data_len = 3;
    assert_eq!(handle_activate_level_v3(a, 1, PRICE_L1, 1, 5).err(), Some(CustomError::RecipientMustBeSystemWallet));
    let mut a = world.accounts(key(1), 1);
    a.tx_guard.key = key(44);
    assert_eq!(handle_activate_level_v3(a, 1, PRICE_L1, 1, 5).err(), Some(CustomError::KeyMismatch));
}

#[test]
fn invalid_level_is_refused() {
    let mut world = World::new(3);
    let pk = world.register(key(1));
    let mut a = world.accounts(key(1), 1);
    a.tx_guard.key = activation_guard_address(&pk, 17, 1).unwrap().0;
    assert_eq!(handle_activate_level_v3(a, 17, PRICE_L1, 1, 5).err(), Some(CustomError::InvalidLevel));
}

#[test]
fn inert_entry_points_accept() {
    assert_eq!(handle_recycle_level_v3(1, 2, 3), Ok(()));
    assert_eq!(handle_claim_slot(), Ok(()));
    assert_eq!(handle_enqueue_player(), Ok(()));
    assert_eq!(handle_dequeue_owner(), Ok(Key::zero()));
}

#[test]
fn recycle_that_rolls_over_keeps_the_activator() {
    let mut world = World::new(3);
    let a = world.register(key(1));
    world.register(key(2));
    let page0 = queue_page_address(&world.pool_key, 0).unwrap().0;
    let page1 = queue_page_address(&world.pool_key, 1).unwrap().0;
    let page2 = queue_page_address(&world.pool_key, 2).unwrap().0;
    let others: Vec<Key> = (0..64u8).map(|n| Key::new([n, 7, 7, 7, 7, 7, 7, 7, 7, 7, 7, 7, 7, 7, 7, 7, 7, 7, 7, 7, 7, 7, 7, 7, 7, 7, 7, 7, 7, 7, 7, 7])).collect();
    world.pages = vec![
        (page0, QueuePage { bump: 1, level_pool: world.pool_key, page_index: 0, next_page: Some(page1), players: vec![a] }),
        (page1, QueuePage { bump: 1, level_pool: world.pool_key, page_index: 1, next_page: None, players: others.clone() }),
    ];
    world.pool = LevelPool {
        config: config_key(),
        level: 1,
        bump: level_pool_address(&config_key(), 1).unwrap().1,
        head_page: Some(page0),
        tail_page: Some(page1),
        total_enqueued: 65,
        total_dequeued: 0,
    };
    let a_state = LevelState {
        player: a,
        authority: key(1),
        level: 1,
        bump: level_state_address(&a, 1).unwrap().1,
        activated_at: 5,
        cycles: 0,
        slots_filled: 2,
        head_page: None,
        tail_page: None,
    };
    world.level_states.insert(a.bytes, stored(&a_state));
    let b = player_address(&key(2)).unwrap().0;
    world.activate(key(2), 1).unwrap();
    let a_after = world.level_state_of(&a).unwrap();
    assert_eq!((a_after.cycles, a_after.slots_filled), (1, 0));
    assert_eq!(world.pool.head_page, Some(page1));
    assert_eq!(world.pool.tail_page, Some(page2));
    assert_eq!(world.page(&page2).players, vec![a, b]);
    assert_eq!(world.page(&page1).next_page, Some(page2));
    let mut expected = others.clone();
    expected.push(a);
    expected.push(b);
    assert_eq!(world.queue(), expected);
}

#[test]
fn clock_before_registration_does_not_satisfy_delay() {
    let mut world = World::new(3);
    world.register(key(1));
    let mut a = world.accounts(key(1), 1);
    a.config.min_entry_delay = 10;
    a.player.created_at = 2_000;
    assert_eq!(handle_activate_level_v3(a, 1, PRICE_L1, 1, 1_000).err(), Some(CustomError::MinEntryDelay));
    let mut ok = world.accounts(key(1), 1);
    ok.config.min_entry_delay = 10;
    ok.player.created_at = 990;
    assert!(handle_activate_level_v3(ok, 1, PRICE_L1, 1, 1_000).is_ok());
}
