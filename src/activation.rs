use vstd::prelude::*;
use crate::accounts::{
    GuardAccount, LevelStateAccount, Player, PlayerRecord, Transfer, TxGuard, WalletAccount,
    is_system_wallet, require_system_wallet,
};
use crate::address::{
    activation_guard_address, activation_guard_seeds, level_state_address, level_state_seeds, pda,
    queue_page_seeds,
};
use crate::config::{ConfigV3, MAX_LEVEL, effective_threshold, expected_price_from_cfg, level_price, recycle_threshold};
use crate::error::CustomError;
use crate::events::{DequeuedOwner, GameEvent, LevelActivated, LevelRecycled, SlotsFilledN};
use crate::key::{Key, zero_key, lemma_key_view_injective};
use crate::level_queue::{
    LevelPool, chain_ok, create_queue_page, dequeue_head, dequeue_result, enqueue_into_tail, enqueue_result, fresh_page,
    lemma_contents_last, lemma_dequeue_keeps_fifo, lemma_enqueue_keeps_fifo, queue_contents,
};
use crate::level_state::{
    LEVEL_STATE_SIZE, LevelState, load_or_migrate_level_state, normalized,
    store_level_state, stored_over,
};
use crate::payout::{Payouts, compute_payouts, payouts_for};
use crate::queue::{PageStore, PageView, QueuePage};
use crate::referral::{account_parts, resolve_ref_with_level_or_admin, resolved_referrer};

verus! {

/// Everything that a level activation reads, as handed over by the host.
#[derive(Debug)]
pub struct ActivationAccounts {
    /// Address of the activator's participant record.
    pub player_key: Key,
    pub player: Player,
    /// The wallet that signs and pays.
    pub authority: Key,
    /// The activator's state on the level (all zero when just created).
    pub level_state: LevelState,
    pub level_state_bump: u8,
    pub tx_guard: GuardAccount,
    pub config_key: Key,
    pub config: ConfigV3,
    pub level_pool_key: Key,
    /// The level's pool (all zero when just created).
    pub level_pool: LevelPool,
    pub level_pool_bump: u8,
    pub admin_account: WalletAccount,
    pub treasury_account: WalletAccount,
    pub ref1_account: WalletAccount,
    pub ref2_account: WalletAccount,
    pub ref3_account: WalletAccount,
    /// Address of the account handed over as the tail page.
    pub tail_page: Key,
    /// Address of the account handed over for a page to create.
    pub new_page: Key,
    /// Address of the account handed over as the head page.
    pub head_page: Key,
    /// The queue pages among the accounts handed over.
    pub pages: PageStore,
    pub owner_player_key: Key,
    pub owner_player: PlayerRecord,
    pub owner_level_state: LevelStateAccount,
    pub owner_wallet: WalletAccount,
    pub ref1_level_state: Option<LevelStateAccount>,
    pub ref2_level_state: Option<LevelStateAccount>,
    pub ref3_level_state: Option<LevelStateAccount>,
}

/// The owner's level state as it is to be stored.
#[derive(Debug)]
pub struct OwnerStateUpdate {
    /// The account did not exist and is to be created.
    pub created: bool,
    pub bump: u8,
    pub state: LevelState,
    /// The account's bytes after the update.
    pub data: Vec<u8>,
}

/// Everything that a successful activation writes and pays.
#[derive(Debug)]
pub struct ActivationOutcome {
    pub tx_guard_key: Key,
    pub tx_guard: TxGuard,
    pub level_state: LevelState,
    pub level_pool: LevelPool,
    pub pages: PageStore,
    /// `None` on the first activation of a level, which has no owner.
    pub owner_level_state: Option<OwnerStateUpdate>,
    pub transfers: Vec<Transfer>,
    pub events: Vec<GameEvent>,
}

/// A payment, left out when it is of nothing.
pub open spec fn payment(to: Key, lamports: u64) -> Seq<Transfer> {
    if lamports == 0 {
        Seq::empty()
    } else {
        seq![Transfer { to, lamports }]
    }
}

/// Records a payment of `lamports` to `to`; a payment of nothing is skipped.
pub fn safe_transfer(transfers: &mut Vec<Transfer>, to: &Key, lamports: u64)
    ensures
        final(transfers)@ == old(transfers)@ + payment(*to, lamports),
{
    if lamports == 0 {
        assert(transfers@ =~= old(transfers)@ + payment(*to, lamports));
        return;
    }
    transfers.push(Transfer { to: *to, lamports });
    assert(transfers@ =~= old(transfers)@ + payment(*to, lamports));
}

/// The payments of an activation that fills a slot of another owner.
pub open spec fn split_transfers(price: u64, owner_wallet: Key, r1: Key, r2: Key, r3: Key, admin: Key, treasury: Key) -> Seq<
    Transfer,
> {
    let p = payouts_for(price, r1, r2, r3, admin, treasury);
    payment(owner_wallet, p.owner) + payment(r1, p.ref1) + payment(r2, p.ref2) + payment(r3, p.ref3) + payment(
        treasury,
        p.treasury,
    )
}

/// An owner's state after one more slot is filled: the slot count goes
/// up; on reaching the threshold (never below three) the cycle count goes
/// up, the slots start again from zero, and the owner is to recycle.
pub open spec fn slot_step_result(ls: LevelState, slots_to_recycle: u8) -> Result<(LevelState, bool), CustomError> {
    let t = recycle_threshold(slots_to_recycle);
    if ls.activated_at <= 0 {
        Err(CustomError::LevelNotActivated)
    } else if ls.slots_filled >= t {
        Err(CustomError::SlotsAlreadyFull)
    } else if ls.slots_filled + 1 == t {
        Ok((LevelState { cycles: ls.cycles.saturating_add(1), slots_filled: 0, ..ls }, true))
    } else {
        Ok((LevelState { slots_filled: (ls.slots_filled + 1) as u64, ..ls }, false))
    }
}

/// Fills one slot of the owner's state; see `slot_step_result`.
pub fn fill_owner_slot(owner_ls: &mut LevelState, slots_to_recycle: u8) -> (r: Result<bool, CustomError>)
    ensures
        match slot_step_result(*old(owner_ls), slots_to_recycle) {
            Ok((ls, recycled)) => r == Ok::<bool, CustomError>(recycled) && *final(owner_ls) == ls,
            Err(e) => r == Err::<bool, CustomError>(e) && *final(owner_ls) == *old(owner_ls),
        },
{
    if !(owner_ls.activated_at > 0) {
        return Err(CustomError::LevelNotActivated);
    }
    let threshold = effective_threshold(slots_to_recycle);
    if !(owner_ls.slots_filled < threshold) {
        return Err(CustomError::SlotsAlreadyFull);
    }
    owner_ls.slots_filled = owner_ls.slots_filled + 1;
    let should_recycle = owner_ls.slots_filled == threshold;
    if should_recycle {
        owner_ls.cycles = owner_ls.cycles.saturating_add(1);
        owner_ls.slots_filled = 0;
    }
    Ok(should_recycle)
}

/// An owner recycles only on the slot that brings the count to the
/// threshold, never before three slots, even when fewer are configured;
/// and a successful slot never changes the owner's other fields.
pub proof fn lemma_recycle_needs_three_slots(ls: LevelState, slots_to_recycle: u8)
    requires
        slot_step_result(ls, slots_to_recycle) is Ok,
    ensures
        ({
            let (ls2, recycled) = slot_step_result(ls, slots_to_recycle).unwrap();
            &&& recycled <==> ls.slots_filled + 1 == recycle_threshold(slots_to_recycle)
            &&& recycled ==> ls.slots_filled + 1 >= 3 && ls2.slots_filled == 0
            &&& !recycled ==> ls2.slots_filled == ls.slots_filled + 1 && ls2.slots_filled < recycle_threshold(
                slots_to_recycle,
            )
            &&& ls2.player == ls.player && ls2.authority == ls.authority && ls2.level == ls.level
        }),
{
}

} // verus!

verus! {

/// The first activation of a level, checked in order: the treasury
/// account is the configured plain wallet; page 0 is created at the account
/// handed over for it (see `create_queue_page`) with the activator as sole
/// entry; the pool's head and tail point at it; the whole price goes to the
/// treasury.
pub open spec fn first_activation_result(a: ActivationAccounts, price: u64) -> Result<
    (LevelPool, Map<Key, PageView>, Seq<Transfer>),
    CustomError,
> {
    if a.treasury_account.key != a.config.treasury {
        Err(CustomError::KeyMismatch)
    } else if !is_system_wallet(a.treasury_account) {
        Err(CustomError::RecipientMustBeSystemWallet)
    } else {
        match pda(queue_page_seeds(a.level_pool_key@, 0)) {
            None => Err(CustomError::AddressDerivationFailed),
            Some((addr, bump)) => if addr != a.new_page@ {
                Err(CustomError::QueuePageKeyMismatch)
            } else if a.pages@.contains_key(a.new_page) {
                Err(CustomError::AccountAlreadyInUse)
            } else {
                Ok((
                    LevelPool {
                        head_page: Some(a.new_page),
                        tail_page: Some(a.new_page),
                        total_enqueued: a.level_pool.total_enqueued.saturating_add(1),
                        ..a.level_pool
                    },
                    a.pages@.insert(a.new_page, fresh_page(a.level_pool_key, 0, bump, a.player_key)),
                    payment(a.config.treasury, price),
                ))
            },
        }
    }
}

/// Creates page 0 of a level's queue with the activator as its sole entry,
/// and pays the whole price to the treasury: there is no owner yet.
pub fn process_first_activation(
    a: &mut ActivationAccounts,
    level: u8,
    price: u64,
    transfers: &mut Vec<Transfer>,
    events: &mut Vec<GameEvent>,
) -> (r: Result<(), CustomError>)
    ensures
        match first_activation_result(*old(a), price) {
            Ok((p, st, ts)) => r is Ok && final(a).level_pool == p && final(a).pages@ == st && final(transfers)@
                == old(transfers)@ + ts,
            Err(e) => r == Err::<(), CustomError>(e) && final(transfers)@ == old(transfers)@
                && final(a).level_pool == old(a).level_pool && final(a).pages@ == old(a).pages@,
        },
{
    if !a.treasury_account.key.same_as(&a.config.treasury) {
        return Err(CustomError::KeyMismatch);
    }
    match require_system_wallet(&a.treasury_account) {
        Ok(()) => {},
        Err(e) => {
            return Err(e);
        },
    }
    let page_index: u32 = 0;
    let (page_pda, bump_page) = match create_queue_page(&a.level_pool_key, page_index, &a.new_page, &a.pages) {
        Ok(v) => v,
        Err(e) => {
            return Err(e);
        },
    };
    let first_page = QueuePage {
        bump: bump_page,
        level_pool: a.level_pool_key,
        page_index,
        next_page: None,
        players: vec![a.player_key],
    };
    proof {
        assert(first_page@.players =~= seq![a.player_key]);
    }
    a.pages.put(page_pda, first_page);
    a.level_pool.head_page = Some(page_pda);
    a.level_pool.tail_page = Some(page_pda);
    a.level_pool.total_enqueued = a.level_pool.total_enqueued.saturating_add(1);
    events.push(
        GameEvent::QueuePageCreated(
            crate::events::QueuePageCreated { level, pool: a.level_pool_key, page_index, page: page_pda },
        ),
    );
    events.push(
        GameEvent::Enqueued(
            crate::events::Enqueued { player: a.player_key, level, page_index, position_in_page: 0 },
        ),
    );
    let treasury = a.config.treasury;
    safe_transfer(transfers, &treasury, price);
    Ok(())
}

} // verus!

verus! {

/// Bytes of the owner's level-state account once it exists: a missing
/// account is created zero-filled at full record size.
pub open spec fn owner_state_bytes(data: Seq<u8>) -> Seq<u8> {
    if data.len() == 0 {
        Seq::new((8 + LEVEL_STATE_SIZE) as nat, |i: int| 0u8)
    } else {
        data
    }
}

/// The bump of the owner's level-state address.
pub open spec fn owner_state_bump(owner: Key, level: u8) -> u8 {
    pda(level_state_seeds(owner@, level)).unwrap().1
}

/// The owner's state loaded from stored bytes: normalised; a record with no
/// authority yet is started afresh as activated now, its authority taken
/// from the owner's participant record or else the owner wallet handed over.
/// `None` when the bytes cannot be normalised or the participant record
/// cannot be read.
pub open spec fn owner_state_from(
    stored: Seq<u8>,
    owner: Key,
    owner_player: PlayerRecord,
    owner_wallet: Key,
    level: u8,
    now: i64,
) -> Option<LevelState> {
    match normalized(owner_state_bytes(stored)) {
        None => None,
        Some((ls, _)) => if owner_player is Unreadable {
            None
        } else if ls.authority == zero_key() {
            Some(
                LevelState {
                    player: owner,
                    authority: match owner_player {
                        PlayerRecord::Present(p) => p.authority,
                        _ => owner_wallet,
                    },
                    level,
                    bump: owner_state_bump(owner, level),
                    activated_at: now,
                    cycles: 0,
                    slots_filled: 0,
                    head_page: None,
                    tail_page: None,
                },
            )
        } else {
            Some(ls)
        },
    }
}

/// The owner's three uplines; the admin stands for all three when the
/// owner has no participant record.
pub open spec fn owner_uplines(a: ActivationAccounts) -> (Key, Key, Key) {
    match a.owner_player {
        PlayerRecord::Present(p) => (p.upline1, p.upline2, p.upline3),
        _ => (a.config.admin, a.config.admin, a.config.admin),
    }
}

/// The recipients of the three referral shares.
pub open spec fn resolved_refs(a: ActivationAccounts, level: u8) -> (Key, Key, Key) {
    let (u1, u2, u3) = owner_uplines(a);
    (
        resolved_referrer(u1, level, account_parts(a.ref1_level_state), a.config.admin),
        resolved_referrer(u2, level, account_parts(a.ref2_level_state), a.config.admin),
        resolved_referrer(u3, level, account_parts(a.ref3_level_state), a.config.admin),
    )
}

/// The entry at the head of the queue, as the pages handed over show it.
pub open spec fn queue_owner(a: ActivationAccounts) -> Key {
    a.pages@[a.level_pool.head_page.unwrap()].players[0]
}

fn copy_bytes(v: &Vec<u8>) -> (r: Vec<u8>)
    ensures
        r@ == v@,
{
    let mut r: Vec<u8> = Vec::with_capacity(v.len());
    let mut i: usize = 0;
    while i < v.len()
        invariant
            0 <= i <= v@.len(),
            r@ == v@.subrange(0, i as int),
        decreases v@.len() - i,
    {
        r.push(v[i]);
        i = i + 1;
        assert(r@ =~= v@.subrange(0, i as int));
    }
    assert(v@.subrange(0, v@.len() as int) =~= v@);
    r
}

fn zeroed_bytes(n: usize) -> (r: Vec<u8>)
    ensures
        r@ == Seq::new(n as nat, |i: int| 0u8),
{
    let mut r: Vec<u8> = Vec::with_capacity(n);
    let mut i: usize = 0;
    while i < n
        invariant
            0 <= i <= n,
            r@ == Seq::new(i as nat, |j: int| 0u8),
        decreases n - i,
    {
        r.push(0u8);
        i = i + 1;
        assert(r@ =~= Seq::new(i as nat, |j: int| 0u8));
    }
    r
}

/// The queue after an activation on a level that has an owner: when
/// `rotate` holds the owner leaves the head and rejoins at the tail; then,
/// when given, the activator joins the tail. Both may share the one page
/// that the operation is allowed to create: once the owner's rotation has
/// created it, that page is the tail the activator joins. The first step that fails
/// gives the error.
pub open spec fn queue_after(
    level: u8,
    pool_key: Key,
    pool: LevelPool,
    store: Map<Key, PageView>,
    head_account: Key,
    tail_account: Key,
    new_page_account: Key,
    rotate: bool,
    owner: Key,
    join: Option<Key>,
) -> Result<(LevelPool, Map<Key, PageView>), CustomError> {
    let rotated: Result<(LevelPool, Map<Key, PageView>, bool), CustomError> = if rotate {
        match dequeue_result(pool, store, head_account) {
            Err(e) => Err(e),
            Ok((_, p, s)) => match enqueue_result(level, pool_key, p, s, tail_account, new_page_account, owner, false) {
                Err(e) => Err(e),
                Ok((p2, s2, u, _)) => Ok((p2, s2, u)),
            },
        }
    } else {
        Ok((pool, store, false))
    };
    match rotated {
        Err(e) => Err(e),
        Ok((p, s, u)) => match join {
            None => Ok((p, s)),
            Some(j) => match enqueue_result(
                level,
                pool_key,
                p,
                s,
                if u { new_page_account } else { tail_account },
                new_page_account,
                j,
                u,
            ) {
                Err(e) => Err(e),
                Ok((p3, s3, _, _)) => Ok((p3, s3)),
            },
        },
    }
}

/// Loads the owner's state from the stored bytes of the account handed
/// over for it, which must be at the owner's derived level-state address;
/// see `owner_state_from`. Gives the state, the bytes to store back, and the
/// bump of the address.
fn load_owner_state(
    account_key: &Key,
    stored: Vec<u8>,
    owner: &Key,
    owner_player: PlayerRecord,
    owner_wallet: &Key,
    level: u8,
    now: i64,
) -> (r: Result<(LevelState, Vec<u8>, u8), CustomError>)
    ensures
        match pda(level_state_seeds(owner@, level)) {
            None => r == Err::<(LevelState, Vec<u8>, u8), CustomError>(CustomError::AddressDerivationFailed),
            Some((addr, bump)) => if addr != account_key@ {
                r == Err::<(LevelState, Vec<u8>, u8), CustomError>(CustomError::KeyMismatch)
            } else {
                match (
                    normalized(owner_state_bytes(stored@)),
                    owner_state_from(stored@, *owner, owner_player, *owner_wallet, level, now),
                ) {
                    (Some((_, nd)), Some(ls)) => r matches Ok((l, d, b)) && l == ls && d@ == nd && b == bump,
                    _ => r == Err::<(LevelState, Vec<u8>, u8), CustomError>(CustomError::AccountCastError),
                }
            },
        },
{
    let owner_player_pda = *owner;
    let (owner_ls_pda, owner_ls_bump) = match level_state_address(&owner_player_pda, level) {
        Some(v) => v,
        None => {
            return Err(CustomError::AddressDerivationFailed);
        },
    };
    if !account_key.same_as(&owner_ls_pda) {
        proof {
            if owner_ls_pda@ == account_key@ {
                lemma_key_view_injective(owner_ls_pda, *account_key);
            }
        }
        return Err(CustomError::KeyMismatch);
    }
    let mut data: Vec<u8> = if stored.len() == 0 {
        zeroed_bytes(8 + LEVEL_STATE_SIZE)
    } else {
        stored
    };
    assert(data@ == owner_state_bytes(stored@));
    let mut owner_ls = match load_or_migrate_level_state(&mut data) {
        Ok(ls) => ls,
        Err(e) => {
            return Err(e);
        },
    };
    let owner_authority_fallback = *owner_wallet;
    let owner_player_opt: Option<Player> = match owner_player {
        PlayerRecord::Absent => None,
        PlayerRecord::Present(p) => Some(p),
        PlayerRecord::Unreadable => {
            return Err(CustomError::AccountCastError);
        },
    };
    if owner_ls.authority.is_zero() {
        proof {
            assert(owner_ls.authority@ =~= zero_key()@);
            lemma_key_view_injective(owner_ls.authority, zero_key());
        }
        owner_ls.player = owner_player_pda;
        owner_ls.authority = match owner_player_opt {
            Some(p) => p.authority,
            None => owner_authority_fallback,
        };
        owner_ls.level = level;
        owner_ls.activated_at = now;
        owner_ls.cycles = 0;
        owner_ls.slots_filled = 0;
        owner_ls.bump = owner_ls_bump;
        owner_ls.head_page = None;
        owner_ls.tail_page = None;
    } else {
        proof {
            if owner_ls.authority == zero_key() {
                crate::key::lemma_key_from_seq(Seq::new(32, |i: int| 0u8));
            }
        }
    }
    Ok((owner_ls, data, owner_ls_bump))
}

/// Moves the owner from the head to the tail when `rotate` holds, then
/// enqueues `join` when given; see `queue_after`.
fn rotate_and_join(
    a: &mut ActivationAccounts,
    level: u8,
    rotate: bool,
    owner: &Key,
    join: Option<Key>,
    events: &mut Vec<GameEvent>,
) -> (r: Result<(), CustomError>)
    ensures
        match queue_after(level, old(a).level_pool_key, old(a).level_pool, old(a).pages@, old(a).head_page,
            old(a).tail_page, old(a).new_page, rotate, *owner, join) {
            Ok((p, st)) => r is Ok && final(a).level_pool == p && final(a).pages@ == st,
            Err(e) => r == Err::<(), CustomError>(e) && final(a).level_pool == old(a).level_pool
                && final(a).pages@ == old(a).pages@,
        },
        final(a).player_key == old(a).player_key,
        final(a).config == old(a).config,
{
    let pool_key = a.level_pool_key;
    let tail_account = a.tail_page;
    let new_page_account = a.new_page;
    let head_account = a.head_page;
    let mut pool = a.level_pool;
    let mut pages = a.pages.duplicate();
    let mut used_new_page = false;
    if rotate {
        match dequeue_head(&mut pool, &mut pages, &head_account) {
            Ok(_) => {},
            Err(e) => {
                return Err(e);
            },
        }
        match enqueue_into_tail(
            level,
            &pool_key,
            &mut pool,
            &mut pages,
            &tail_account,
            &new_page_account,
            owner,
            &mut used_new_page,
            events,
        ) {
            Ok(()) => {},
            Err(e) => {
                return Err(e);
            },
        }
    }
    if let Some(j) = join {
        let join_tail = if used_new_page { new_page_account } else { tail_account };
        match enqueue_into_tail(
            level,
            &pool_key,
            &mut pool,
            &mut pages,
            &join_tail,
            &new_page_account,
            &j,
            &mut used_new_page,
            events,
        ) {
            Ok(()) => {},
            Err(e) => {
                return Err(e);
            },
        }
    }
    a.level_pool = pool;
    a.pages = pages;
    Ok(())
}

/// The owner activates again: moves to the tail, keeps its state, and pays
/// the whole price to the treasury; see `self_owner_result`. Gives the bytes
/// to store.
fn requeue_self_owner(
    a: &mut ActivationAccounts,
    level: u8,
    price: u64,
    owner: &Key,
    owner_ls: &LevelState,
    data: &Vec<u8>,
    transfers: &mut Vec<Transfer>,
    events: &mut Vec<GameEvent>,
) -> (r: Result<Vec<u8>, CustomError>)
    ensures
        match self_owner_result(*old(a), level, price, *owner, *owner_ls, data@) {
            Ok((_, bytes, ts, p, st)) => r matches Ok(d) && d@ == bytes && final(transfers)@ == old(transfers)@ + ts
                && final(a).level_pool == p && final(a).pages@ == st,
            Err(e) => r == Err::<Vec<u8>, CustomError>(e) && final(transfers)@ == old(transfers)@
                && final(a).level_pool == old(a).level_pool && final(a).pages@ == old(a).pages@,
        },
{
    let treasury = a.config.treasury;
    let mut stored_data = copy_bytes(data);
    match store_level_state(&mut stored_data, owner_ls) {
        Ok(()) => {},
        Err(e) => {
            return Err(e);
        },
    }
    match rotate_and_join(a, level, true, owner, None, events) {
        Ok(()) => {},
        Err(e) => {
            return Err(e);
        },
    }
    safe_transfer(transfers, &treasury, price);
    Ok(stored_data)
}

/// Fills a slot of the owner and splits the price; see `slot_fill_result`.
fn fill_slot_and_pay(
    a: &mut ActivationAccounts,
    level: u8,
    price: u64,
    now: i64,
    owner: &Key,
    owner_ls: LevelState,
    data: Vec<u8>,
    transfers: &mut Vec<Transfer>,
    events: &mut Vec<GameEvent>,
) -> (r: Result<(LevelState, Vec<u8>), CustomError>)
    ensures
        match slot_fill_result(*old(a), level, price, *owner, owner_ls, data@) {
            Ok((ls, bytes, ts, p, st)) => r matches Ok((l, d)) && l == ls && d@ == bytes && final(transfers)@ == old(
                transfers,
            )@ + ts && final(a).level_pool == p && final(a).pages@ == st,
            Err(e) => r == Err::<(LevelState, Vec<u8>), CustomError>(e) && final(transfers)@ == old(transfers)@
                && final(a).level_pool == old(a).level_pool && final(a).pages@ == old(a).pages@,
        },
{
    let mut owner_ls = owner_ls;
    let mut data = data;
    let owner_player_pda = *owner;
    let treasury = a.config.treasury;
    let admin = a.config.admin;
    let before = owner_ls;
    let should_recycle = match fill_owner_slot(&mut owner_ls, a.config.slots_to_recycle) {
        Ok(v) => v,
        Err(e) => {
            return Err(e);
        },
    };
    events.push(
        GameEvent::SlotsFilledN(
            SlotsFilledN {
                owner: before.authority,
                level: before.level,
                cycles: before.cycles,
                filled: (before.slots_filled + 1) as u8,
            },
        ),
    );

    let (u1, u2, u3) = match a.owner_player {
        PlayerRecord::Present(op) => (op.upline1, op.upline2, op.upline3),
        _ => (admin, admin, admin),
    };
    let ref1 = resolve_ref_with_level_or_admin(&u1, level, &a.ref1_level_state, &admin);
    let ref2 = resolve_ref_with_level_or_admin(&u2, level, &a.ref2_level_state, &admin);
    let ref3 = resolve_ref_with_level_or_admin(&u3, level, &a.ref3_level_state, &admin);

    let payouts: Payouts = compute_payouts(price, &ref1, &ref2, &ref3, &admin, &treasury);

    if !a.ref1_account.key.same_as(&ref1) {
        return Err(CustomError::KeyMismatch);
    }
    if !a.ref2_account.key.same_as(&ref2) {
        return Err(CustomError::KeyMismatch);
    }
    if !a.ref3_account.key.same_as(&ref3) {
        return Err(CustomError::KeyMismatch);
    }
    match require_system_wallet(&a.ref1_account) {
        Ok(()) => {},
        Err(e) => {
            return Err(e);
        },
    }
    match require_system_wallet(&a.ref2_account) {
        Ok(()) => {},
        Err(e) => {
            return Err(e);
        },
    }
    match require_system_wallet(&a.ref3_account) {
        Ok(()) => {},
        Err(e) => {
            return Err(e);
        },
    }

    let owner_wallet = a.owner_wallet.key;
    if should_recycle {
        events.push(
            GameEvent::LevelRecycled(
                LevelRecycled {
                    owner: owner_ls.authority,
                    level: owner_ls.level,
                    cycles: owner_ls.cycles,
                    lamports: price,
                    timestamp: now,
                },
            ),
        );
    }
    match store_level_state(&mut data, &owner_ls) {
        Ok(()) => {},
        Err(e) => {
            return Err(e);
        },
    }

    let activator = a.player_key;
    match rotate_and_join(a, level, should_recycle, &owner_player_pda, Some(activator), events) {
        Ok(()) => {},
        Err(e) => {
            return Err(e);
        },
    }
    let ghost before_transfers = transfers@;
    safe_transfer(transfers, &owner_wallet, payouts.owner);
    safe_transfer(transfers, &ref1, payouts.ref1);
    safe_transfer(transfers, &ref2, payouts.ref2);
    safe_transfer(transfers, &ref3, payouts.ref3);
    safe_transfer(transfers, &treasury, payouts.treasury);
    assert(transfers@ =~= before_transfers + split_transfers(price, owner_wallet, ref1, ref2, ref3, admin, treasury));
    Ok((owner_ls, data))
}

/// What an activation on a level with an owner writes and pays: the
/// owner's state and its stored bytes, the payments, the pool and the pages.
pub type ExistingEffect = (LevelState, Seq<u8>, Seq<Transfer>, LevelPool, Map<Key, PageView>);

/// An activator who is the owner: its state is stored unchanged, the
/// owner rotates to the tail, and the whole price goes to the treasury.
pub open spec fn self_owner_result(a: ActivationAccounts, level: u8, price: u64, owner: Key, ls: LevelState, nd: Seq<u8>) -> Result<
    ExistingEffect,
    CustomError,
> {
    match stored_over(nd, ls) {
        None => Err(CustomError::AccountCastError),
        Some(bytes) => match queue_after(level, a.level_pool_key, a.level_pool, a.pages@, a.head_page, a.tail_page,
            a.new_page, true, owner, None) {
            Err(e) => Err(e),
            Ok((p, st)) => Ok((ls, bytes, payment(a.config.treasury, price), p, st)),
        },
    }
}

/// An activator who is not the owner fills a slot of the owner (see
/// `slot_step_result`); the referral accounts must be the resolved plain
/// wallets; the price is split (see `split_transfers`); the new state is
/// stored; the owner rotates when it recycles; the activator joins the tail.
pub open spec fn slot_fill_result(a: ActivationAccounts, level: u8, price: u64, owner: Key, ls: LevelState, nd: Seq<u8>) -> Result<
    ExistingEffect,
    CustomError,
> {
    let cfg = a.config;
    match slot_step_result(ls, cfg.slots_to_recycle) {
        Err(e) => Err(e),
        Ok((ls2, recycled)) => {
            let (r1, r2, r3) = resolved_refs(a, level);
            if a.ref1_account.key != r1 || a.ref2_account.key != r2 || a.ref3_account.key != r3 {
                Err(CustomError::KeyMismatch)
            } else if !is_system_wallet(a.ref1_account) || !is_system_wallet(a.ref2_account) || !is_system_wallet(
                a.ref3_account,
            ) {
                Err(CustomError::RecipientMustBeSystemWallet)
            } else {
                match stored_over(nd, ls2) {
                    None => Err(CustomError::AccountCastError),
                    Some(bytes) => match queue_after(level, a.level_pool_key, a.level_pool, a.pages@, a.head_page,
                        a.tail_page, a.new_page, recycled, owner, Some(a.player_key)) {
                        Err(e) => Err(e),
                        Ok((p, st)) => Ok((
                            ls2,
                            bytes,
                            split_transfers(price, a.owner_wallet.key, r1, r2, r3, cfg.admin, cfg.treasury),
                            p,
                            st,
                        )),
                    },
                }
            }
        },
    }
}

/// An activation on a level whose queue has a head, checked in order: the
/// admin and treasury accounts are the configured plain wallets; the head
/// page is the pool's and is not empty, its first entry is the owner and
/// the owner's participant and level-state accounts are the ones handed
/// over; the owner's state loads (see `owner_state_from`) and names the
/// plain owner wallet handed over. Then `self_owner_result` when the
/// activator is the owner, else `slot_fill_result`.
pub open spec fn existing_activation_result(a: ActivationAccounts, level: u8, price: u64, now: i64) -> Result<
    ExistingEffect,
    CustomError,
> {
    let cfg = a.config;
    if a.admin_account.key != cfg.admin || a.treasury_account.key != cfg.treasury {
        Err(CustomError::KeyMismatch)
    } else if !is_system_wallet(a.admin_account) || !is_system_wallet(a.treasury_account) {
        Err(CustomError::RecipientMustBeSystemWallet)
    } else if a.level_pool.head_page is None {
        Err(CustomError::QueueIsEmpty)
    } else if a.level_pool.head_page.unwrap() != a.head_page {
        Err(CustomError::QueuePageKeyMismatch)
    } else if !a.pages@.contains_key(a.head_page) {
        Err(CustomError::AccountCastError)
    } else if a.pages@[a.head_page].players.len() == 0 {
        Err(CustomError::QueueIsEmpty)
    } else {
        let owner = a.pages@[a.head_page].players[0];
        let stored = a.owner_level_state.data@;
        if a.owner_player_key != owner {
            Err(CustomError::KeyMismatch)
        } else if pda(level_state_seeds(owner@, level)) is None {
            Err(CustomError::AddressDerivationFailed)
        } else if pda(level_state_seeds(owner@, level)).unwrap().0 != a.owner_level_state.key@ {
            Err(CustomError::KeyMismatch)
        } else {
            match (
                normalized(owner_state_bytes(stored)),
                owner_state_from(stored, owner, a.owner_player, a.owner_wallet.key, level, now),
            ) {
                (Some((_, nd)), Some(ls)) => {
                    if a.owner_wallet.key != ls.authority {
                        Err(CustomError::KeyMismatch)
                    } else if !is_system_wallet(a.owner_wallet) {
                        Err(CustomError::RecipientMustBeSystemWallet)
                    } else if owner == a.player_key {
                        self_owner_result(a, level, price, owner, ls, nd)
                    } else {
                        slot_fill_result(a, level, price, owner, ls, nd)
                    }
                },
                _ => Err(CustomError::AccountCastError),
            }
        }
    }
}

/// Handles an activation on a level whose queue has a head: the head entry
/// is the owner. An activator who is the owner pays the whole price to the
/// treasury and the owner moves to the tail with its slots and cycles
/// untouched. Anyone else fills one of the owner's slots and the price is
/// split; on the slot that reaches the threshold the owner recycles to the
/// tail. The activator always joins the tail.
pub fn process_existing_activation(
    a: &mut ActivationAccounts,
    level: u8,
    price: u64,
    now: i64,
    transfers: &mut Vec<Transfer>,
    events: &mut Vec<GameEvent>,
) -> (r: Result<OwnerStateUpdate, CustomError>)
    ensures
        match existing_activation_result(*old(a), level, price, now) {
            Ok((ls, bytes, ts, p, st)) => r matches Ok(u) && {
                &&& u.state == ls
                &&& u.data@ == bytes
                &&& u.created == (old(a).owner_level_state.data@.len() == 0)
                &&& u.bump == owner_state_bump(queue_owner(*old(a)), level)
                &&& final(transfers)@ == old(transfers)@ + ts
                &&& final(a).level_pool == p
                &&& final(a).pages@ == st
            },
            Err(e) => r == Err::<OwnerStateUpdate, CustomError>(e) && final(transfers)@ == old(transfers)@
                && final(a).level_pool == old(a).level_pool && final(a).pages@ == old(a).pages@,
        },
{
    if !a.admin_account.key.same_as(&a.config.admin) {
        return Err(CustomError::KeyMismatch);
    }
    if !a.treasury_account.key.same_as(&a.config.treasury) {
        return Err(CustomError::KeyMismatch);
    }
    match require_system_wallet(&a.admin_account) {
        Ok(()) => {},
        Err(e) => {
            return Err(e);
        },
    }
    match require_system_wallet(&a.treasury_account) {
        Ok(()) => {},
        Err(e) => {
            return Err(e);
        },
    }
    let head_key = match a.level_pool.head_page {
        Some(k) => k,
        None => {
            return Err(CustomError::QueueIsEmpty);
        },
    };
    if !head_key.same_as(&a.head_page) {
        return Err(CustomError::QueuePageKeyMismatch);
    }
    let head_page = match a.pages.get(&head_key) {
        Some(p) => p,
        None => {
            return Err(CustomError::AccountCastError);
        },
    };
    if head_page.players.len() == 0 {
        return Err(CustomError::QueueIsEmpty);
    }
    let owner_player_pda = head_page.players[0];
    events.push(
        GameEvent::DequeuedOwner(
            DequeuedOwner { owner_player: owner_player_pda, level, page_index: head_page.page_index },
        ),
    );
    if !a.owner_player_key.same_as(&owner_player_pda) {
        return Err(CustomError::KeyMismatch);
    }
    let is_self_owner = owner_player_pda.same_as(&a.player_key);

    let created = a.owner_level_state.data.len() == 0;
    let stored = copy_bytes(&a.owner_level_state.data);
    let owner_ls_key = a.owner_level_state.key;
    let owner_wallet_key = a.owner_wallet.key;
    let (owner_ls, mut data, owner_ls_bump) = match load_owner_state(
        &owner_ls_key,
        stored,
        &owner_player_pda,
        a.owner_player,
        &owner_wallet_key,
        level,
        now,
    ) {
        Ok(v) => v,
        Err(e) => {
            return Err(e);
        },
    };
    if !a.owner_wallet.key.same_as(&owner_ls.authority) {
        return Err(CustomError::KeyMismatch);
    }
    match require_system_wallet(&a.owner_wallet) {
        Ok(()) => {},
        Err(e) => {
            return Err(e);
        },
    }
    let treasury = a.config.treasury;

    if is_self_owner {
        let data = match requeue_self_owner(a, level, price, &owner_player_pda, &owner_ls, &data, transfers, events) {
            Ok(d) => d,
            Err(e) => {
                return Err(e);
            },
        };
        return Ok(OwnerStateUpdate { created, bump: owner_ls_bump, state: owner_ls, data });
    }

    let (owner_ls, data) = match fill_slot_and_pay(a, level, price, now, &owner_player_pda, owner_ls, data, transfers, events) {
        Ok(v) => v,
        Err(e) => {
            return Err(e);
        },
    };
    Ok(OwnerStateUpdate { created, bump: owner_ls_bump, state: owner_ls, data })
}

} // verus!

verus! {

/// The first check that refuses an activation before anything changes, or
/// `None` when all pass: the replay guard derived from (participant, kind,
/// level, nonce) must be the account handed over and must not exist yet;
/// the signer must own the participant record; the level must be valid; the
/// price must be the level's fixed price; the activator must not have
/// activated the level; and a configured minimum delay since registration
/// must have passed.
pub open spec fn activation_precheck(a: ActivationAccounts, level: u8, price: u64, nonce: u64, now: i64) -> Option<
    CustomError,
> {
    match pda(activation_guard_seeds(a.player_key@, level, nonce)) {
        None => Some(CustomError::AddressDerivationFailed),
        Some((g, _)) => {
            let since = now - a.player.created_at;
            if g != a.tx_guard.key@ {
                Some(CustomError::KeyMismatch)
            } else if a.tx_guard.exists {
                Some(CustomError::AccountAlreadyInUse)
            } else if a.player.authority != a.authority {
                Some(CustomError::Unauthorized)
            } else if !(1 <= level <= MAX_LEVEL) {
                Some(CustomError::InvalidLevel)
            } else if level_price(level) == 0 || price != level_price(level) {
                Some(CustomError::InvalidPrice)
            } else if a.level_state.activated_at != 0 {
                Some(CustomError::AlreadyActivated)
            } else if a.config.min_entry_delay > 0 && !(i64::MIN <= since <= i64::MAX) {
                Some(CustomError::Overflow)
            } else if a.config.min_entry_delay > 0 && since < a.config.min_entry_delay {
                Some(CustomError::MinEntryDelay)
            } else {
                None
            }
        },
    }
}

/// The level's pool, set up for the level when it was just created.
pub open spec fn initialized_pool(a: ActivationAccounts, level: u8) -> LevelPool {
    if a.level_pool.level == 0 {
        LevelPool {
            config: a.config_key,
            level,
            bump: a.level_pool_bump,
            head_page: None,
            tail_page: None,
            total_enqueued: 0,
            total_dequeued: 0,
        }
    } else {
        a.level_pool
    }
}

/// What a successful activation writes and pays: the replay guard, the
/// activator's state, the pool, the pages, the owner's state with its
/// stored bytes (none on a level's first activation), and the payments.
pub type ActivationEffect = (
    TxGuard,
    LevelState,
    LevelPool,
    Map<Key, PageView>,
    Option<(LevelState, Seq<u8>)>,
    Seq<Transfer>,
);

/// A level activation: the checks of `activation_precheck`; then the
/// pool, set up when just created (see `initialized_pool`), must be the
/// level's and the configuration's; the replay guard is written and the
/// activator's state starts as activated now; a level without queue goes
/// by `first_activation_result`, any other by `existing_activation_result`.
pub open spec fn activation_result(a: ActivationAccounts, level: u8, price: u64, nonce: u64, now: i64) -> Result<
    ActivationEffect,
    CustomError,
> {
    match activation_precheck(a, level, price, nonce, now) {
        Some(e) => Err(e),
        None => {
            let pool0 = initialized_pool(a, level);
            let a0 = ActivationAccounts { level_pool: pool0, ..a };
            let guard = TxGuard {
                nonce,
                executed_at: now,
                bump: pda(activation_guard_seeds(a.player_key@, level, nonce)).unwrap().1,
            };
            let ls = LevelState {
                player: a.player_key,
                authority: a.authority,
                level,
                bump: a.level_state_bump,
                activated_at: now,
                cycles: 0,
                slots_filled: 0,
                head_page: None,
                tail_page: None,
            };
            if pool0.level != level {
                Err(CustomError::InvalidLevel)
            } else if pool0.config != a.config_key {
                Err(CustomError::KeyMismatch)
            } else if pool0.head_page is None {
                match first_activation_result(a0, price) {
                    Err(e) => Err(e),
                    Ok((p, st, ts)) => Ok((guard, ls, p, st, None, ts)),
                }
            } else {
                match existing_activation_result(a0, level, price, now) {
                    Err(e) => Err(e),
                    Ok((owner_ls, bytes, ts, p, st)) => Ok((guard, ls, p, st, Some((owner_ls, bytes)), ts)),
                }
            }
        },
    }
}

/// Activates `level` for the participant; see `activation_result`. An
/// error leaves every account as it was and pays nothing.
pub fn handle_activate_level_v3(accounts: ActivationAccounts, level: u8, price_lamports: u64, nonce: u64, now: i64) -> (r:
    Result<ActivationOutcome, CustomError>)
    ensures
        match activation_result(accounts, level, price_lamports, nonce, now) {
            Ok((g, ls, p, st, owner, ts)) => r matches Ok(o) && {
                &&& o.tx_guard_key == accounts.tx_guard.key
                &&& o.tx_guard == g
                &&& o.level_state == ls
                &&& o.level_pool == p
                &&& o.pages@ == st
                &&& o.transfers@ == ts
                &&& match owner {
                    None => o.owner_level_state is None,
                    Some((owner_ls, bytes)) => o.owner_level_state matches Some(u) && u.state == owner_ls && u.data@
                        == bytes,
                }
            },
            Err(e) => r == Err::<ActivationOutcome, CustomError>(e),
        },
{
    let mut a = accounts;
    let (guard_key, guard_bump) = match activation_guard_address(&a.player_key, level, nonce) {
        Some(v) => v,
        None => {
            return Err(CustomError::AddressDerivationFailed);
        },
    };
    if !guard_key.same_as(&a.tx_guard.key) {
        proof {
            if guard_key@ == a.tx_guard.key@ {
                lemma_key_view_injective(guard_key, a.tx_guard.key);
            }
        }
        return Err(CustomError::KeyMismatch);
    }
    if a.tx_guard.exists {
        return Err(CustomError::AccountAlreadyInUse);
    }
    if !a.player.authority.same_as(&a.authority) {
        return Err(CustomError::Unauthorized);
    }
    if !(level >= 1 && level <= MAX_LEVEL) {
        return Err(CustomError::InvalidLevel);
    }
    let expected = expected_price_from_cfg(level, &a.config);
    if !(expected > 0 && price_lamports == expected) {
        return Err(CustomError::InvalidPrice);
    }
    if a.level_state.activated_at != 0 {
        return Err(CustomError::AlreadyActivated);
    }
    if a.config.min_entry_delay > 0 {
        let since = match now.checked_sub(a.player.created_at) {
            Some(v) => v,
            None => {
                return Err(CustomError::Overflow);
            },
        };
        if since < a.config.min_entry_delay as i64 {
            return Err(CustomError::MinEntryDelay);
        }
    }
    let tx_guard = TxGuard { nonce, executed_at: now, bump: guard_bump };
    let level_state = LevelState {
        player: a.player_key,
        authority: a.authority,
        level,
        bump: a.level_state_bump,
        activated_at: now,
        cycles: 0,
        slots_filled: 0,
        head_page: None,
        tail_page: None,
    };
    let mut events: Vec<GameEvent> = Vec::new();
    events.push(
        GameEvent::LevelActivated(
            LevelActivated { owner: a.authority, level, lamports: expected, timestamp: now },
        ),
    );
    if a.level_pool.level == 0 {
        a.level_pool = LevelPool {
            config: a.config_key,
            level,
            bump: a.level_pool_bump,
            head_page: None,
            tail_page: None,
            total_enqueued: 0,
            total_dequeued: 0,
        };
    }
    if a.level_pool.level != level {
        return Err(CustomError::InvalidLevel);
    }
    if !a.level_pool.config.same_as(&a.config_key) {
        return Err(CustomError::KeyMismatch);
    }
    let ghost a0 = a;
    let mut transfers: Vec<Transfer> = Vec::new();
    let owner_level_state = if a.level_pool.head_page.is_none() {
        match process_first_activation(&mut a, level, expected, &mut transfers, &mut events) {
            Ok(()) => {},
            Err(e) => {
                return Err(e);
            },
        }
        None
    } else {
        match process_existing_activation(&mut a, level, expected, now, &mut transfers, &mut events) {
            Ok(u) => Some(u),
            Err(e) => {
                return Err(e);
            },
        }
    };
    assert(transfers@ =~= Seq::<Transfer>::empty() + transfers@);
    Ok(ActivationOutcome {
        tx_guard_key: guard_key,
        tx_guard,
        level_state,
        level_pool: a.level_pool,
        pages: a.pages,
        owner_level_state,
        transfers,
        events,
    })
}

} // verus!

verus! {

/// Issuing the same (participant, level, nonce) activation twice fails the
/// second time: once a first request has passed the replay check, its guard
/// exists, and a second request for the same participant, level and nonce
/// is refused before anything is paid or changed, whatever its price and
/// time.
pub proof fn lemma_replayed_activation_refused(
    first: ActivationAccounts,
    second: ActivationAccounts,
    level: u8,
    first_price: u64,
    second_price: u64,
    nonce: u64,
    first_now: i64,
    second_now: i64,
)
    requires
        activation_precheck(first, level, first_price, nonce, first_now) is None,
        second.player_key == first.player_key,
        second.tx_guard == (GuardAccount { key: first.tx_guard.key, exists: true }),
    ensures
        activation_precheck(second, level, second_price, nonce, second_now) == Some(CustomError::AccountAlreadyInUse),
{
}

/// Kept for interface stability: accepted, and does nothing.
pub fn handle_recycle_level_v3(_level: u8, _price_lamports: u64, _nonce: u64) -> (r: Result<(), CustomError>)
    ensures
        r is Ok,
{
    Ok(())
}

/// Kept for interface stability: accepted, and does nothing.
pub fn handle_claim_slot() -> (r: Result<(), CustomError>)
    ensures
        r is Ok,
{
    Ok(())
}

/// Kept for interface stability: accepted, and does nothing.
pub fn handle_enqueue_player() -> (r: Result<(), CustomError>)
    ensures
        r is Ok,
{
    Ok(())
}

/// Kept for interface stability: accepted, does nothing, and names the
/// all-zero address.
pub fn handle_dequeue_owner() -> (r: Result<Key, CustomError>)
    ensures
        r == Ok::<Key, CustomError>(zero_key()),
{
    Ok(Key::zero())
}

} // verus!

verus! {

/// An activator who heads the queue pays the whole price to the treasury
/// in a single payment, and the owner's slot and cycle counts stay as they
/// were loaded.
pub proof fn lemma_self_owner_activation(a: ActivationAccounts, level: u8, price: u64, nonce: u64, now: i64)
    requires
        activation_result(a, level, price, nonce, now) is Ok,
        initialized_pool(a, level).head_page is Some,
        a.pages@.contains_key(a.head_page),
        a.pages@[a.head_page].players.len() > 0,
        a.pages@[a.head_page].players[0] == a.player_key,
    ensures
        ({
            let (_, _, _, _, owner, ts) = activation_result(a, level, price, nonce, now).unwrap();
            let loaded = owner_state_from(
                a.owner_level_state.data@,
                a.player_key,
                a.owner_player,
                a.owner_wallet.key,
                level,
                now,
            );
            &&& ts == seq![Transfer { to: a.config.treasury, lamports: price }]
            &&& loaded is Some
            &&& owner matches Some((ls, _)) && ls.slots_filled == loaded.unwrap().slots_filled && ls.cycles
                == loaded.unwrap().cycles
        }),
{
    assert(level_price(level) > 0);
}

} // verus!

verus! {

/// An entry of the tail page is an entry of the queue.
proof fn lemma_tail_entry_in_queue(store: Map<Key, PageView>, keys: Seq<Key>, x: Key)
    requires
        keys.len() >= 1,
        store[keys.last()].players.contains(x),
    ensures
        queue_contents(store, keys).contains(x),
{
    lemma_contents_last(store, keys);
    let t = store[keys.last()].players;
    let i = choose|i: int| 0 <= i < t.len() && t[i] == x;
    let pre = queue_contents(store, keys.drop_last());
    assert(queue_contents(store, keys)[pre.len() + i] == x);
}

/// An activation's queue step keeps the queue first-in first-out: on a
/// well-formed chain whose entries are distinct, when the owner heading the
/// queue rotates it leaves the front and rejoins at the very end, and an
/// activator not yet queued joins after it, also across a page rollover.
pub proof fn lemma_queue_after_keeps_fifo(
    level: u8,
    pool_key: Key,
    pool: LevelPool,
    store: Map<Key, PageView>,
    head_account: Key,
    tail_account: Key,
    new_page_account: Key,
    rotate: bool,
    owner: Key,
    join: Option<Key>,
    keys: Seq<Key>,
)
    requires
        chain_ok(store, pool, keys),
        queue_contents(store, keys).no_duplicates(),
        rotate ==> queue_contents(store, keys).len() > 0 && queue_contents(store, keys)[0] == owner,
        join matches Some(j) ==> !queue_contents(store, keys).contains(j) && j != owner,
        queue_after(level, pool_key, pool, store, head_account, tail_account, new_page_account, rotate, owner, join)
            is Ok,
    ensures
        ({
            let (p2, s2) = queue_after(
                level,
                pool_key,
                pool,
                store,
                head_account,
                tail_account,
                new_page_account,
                rotate,
                owner,
                join,
            ).unwrap();
            let c = queue_contents(store, keys);
            let c1 = if rotate { c.drop_first().push(owner) } else { c };
            let c2 = match join {
                Some(j) => c1.push(j),
                None => c1,
            };
            exists|keys2: Seq<Key>| chain_ok(s2, p2, keys2) && queue_contents(s2, keys2) == c2
        }),
{
    let c = queue_contents(store, keys);
    let (pf, sf) = queue_after(
        level,
        pool_key,
        pool,
        store,
        head_account,
        tail_account,
        new_page_account,
        rotate,
        owner,
        join,
    ).unwrap();
    let mut p: LevelPool = pool;
    let mut s: Map<Key, PageView> = store;
    let mut k: Seq<Key> = keys;
    let mut u: bool = false;
    let c1 = if rotate { c.drop_first().push(owner) } else { c };
    if rotate {
        let (_, pd, sd) = dequeue_result(pool, store, head_account).unwrap();
        lemma_dequeue_keeps_fifo(pool, store, head_account, keys);
        let kd = if pd.head_page == pool.head_page { keys } else { keys.drop_first() };
        assert(queue_contents(sd, kd) == c.drop_first());
        assert(!c.drop_first().contains(owner)) by {
            if c.drop_first().contains(owner) {
                let i = choose|i: int| 0 <= i < c.drop_first().len() && c.drop_first()[i] == owner;
                assert(c[i + 1] == c[0]);
            }
        }
        if sd[kd.last()].players.contains(owner) {
            lemma_tail_entry_in_queue(sd, kd, owner);
        }
        let (pe, se, ue, _) = enqueue_result(level, pool_key, pd, sd, tail_account, new_page_account, owner, false)
            .unwrap();
        lemma_enqueue_keeps_fifo(level, pool_key, pd, sd, tail_account, new_page_account, owner, false, kd);
        let ke = if pe.tail_page == pd.tail_page { kd } else { kd.push(new_page_account) };
        p = pe;
        s = se;
        k = ke;
        u = ue;
        assert(queue_contents(s, k) == c1);
    }
    assert(chain_ok(s, p, k) && queue_contents(s, k) == c1);
    match join {
        None => {
            assert(chain_ok(sf, pf, k) && queue_contents(sf, k) == c1);
        },
        Some(j) => {
            let ta = if u { new_page_account } else { tail_account };
            assert(!c1.contains(j)) by {
                if c1.contains(j) {
                    let i = choose|i: int| 0 <= i < c1.len() && c1[i] == j;
                    if rotate && i == c1.len() - 1 {
                    } else if rotate {
                        assert(c[i + 1] == j);
                    } else {
                        assert(c[i] == j);
                    }
                }
            }
            if s[k.last()].players.contains(j) {
                lemma_tail_entry_in_queue(s, k, j);
            }
            lemma_enqueue_keeps_fifo(level, pool_key, p, s, ta, new_page_account, j, u, k);
            let (pj, sj, _, _) = enqueue_result(level, pool_key, p, s, ta, new_page_account, j, u).unwrap();
            let kj = if pj.tail_page == p.tail_page { k } else { k.push(new_page_account) };
            assert(chain_ok(sf, pf, kj) && queue_contents(sf, kj) == c1.push(j));
        },
    }
}

} // verus!
