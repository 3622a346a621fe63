use vstd::prelude::*;
use crate::accounts::{GlobalStats, GuardAccount, Player, PlayerRecord, TxGuard};
use crate::address::{pda, register_guard_seeds, register_guard_address};
use crate::error::CustomError;
use crate::events::PlayerCreated;
use crate::key::{Key, lemma_key_view_injective};

verus! {

/// The referrer's participant account handed over with a registration.
#[derive(Clone, Copy, Debug, PartialEq, Eq)]
pub struct ReferrerAccount {
    pub key: Key,
    pub record: PlayerRecord,
}

/// The three uplines of a new participant.
///
/// With a referrer whose record is handed over, the referrer and its first
/// two uplines; with a referrer alone, the referrer and the admin twice;
/// without one, the last participant created (the admin for the very
/// first) and the admin twice.
pub open spec fn uplines_result(
    referrer: Option<Key>,
    referrer_player: Option<ReferrerAccount>,
    admin: Key,
    stats: GlobalStats,
) -> Result<(Key, Key, Key), CustomError> {
    match referrer {
        Some(r) => match referrer_player {
            Some(acc) => {
                if acc.key != r {
                    Err(CustomError::Unauthorized)
                } else {
                    match acc.record {
                        PlayerRecord::Present(p) => Ok((p.authority, p.upline1, p.upline2)),
                        _ => Err(CustomError::AccountCastError),
                    }
                }
            },
            None => Ok((r, admin, admin)),
        },
        None => if stats.total_players == 0 {
            Ok((admin, admin, admin))
        } else {
            Ok((stats.last_player, admin, admin))
        },
    }
}

pub fn capture_uplines(
    referrer: Option<Key>,
    referrer_player: Option<ReferrerAccount>,
    admin: &Key,
    stats: &GlobalStats,
) -> (r: Result<(Key, Key, Key), CustomError>)
    ensures
        r == uplines_result(referrer, referrer_player, *admin, *stats),
{
    match referrer {
        Some(r) => match referrer_player {
            Some(acc) => {
                if !acc.key.same_as(&r) {
                    return Err(CustomError::Unauthorized);
                }
                match acc.record {
                    PlayerRecord::Present(p) => Ok((p.authority, p.upline1, p.upline2)),
                    _ => Err(CustomError::AccountCastError),
                }
            },
            None => Ok((r, *admin, *admin)),
        },
        None => {
            if stats.total_players == 0 {
                Ok((*admin, *admin, *admin))
            } else {
                Ok((stats.last_player, *admin, *admin))
            }
        },
    }
}

/// The participant record and counters after creating a participant; a
/// wallet that has a participant record already is refused.
pub open spec fn create_player_result(
    authority: Key,
    player_exists: bool,
    bump: u8,
    now: i64,
    referrer: Option<Key>,
    referrer_player: Option<ReferrerAccount>,
    admin: Key,
    stats: GlobalStats,
) -> Result<(Player, GlobalStats, PlayerCreated), CustomError> {
    if player_exists {
        Err(CustomError::AccountAlreadyInUse)
    } else {
        match uplines_result(referrer, referrer_player, admin, stats) {
        Err(e) => Err(e),
        Ok((u1, u2, u3)) => Ok((
            Player { authority, bump, created_at: now, games_played: 0, upline1: u1, upline2: u2, upline3: u3 },
            GlobalStats {
                total_players: stats.total_players.saturating_add(1),
                last_player: authority,
                ..stats
            },
            PlayerCreated { authority, timestamp: now },
        )),
        }
    }
}

/// Creates the participant record of `authority` and counts it;
/// `player_exists` tells whether the wallet's record exists already.
pub fn handle_create_player_v3(
    authority: &Key,
    player_exists: bool,
    bump: u8,
    now: i64,
    referrer: Option<Key>,
    referrer_player: Option<ReferrerAccount>,
    admin: &Key,
    stats: &GlobalStats,
) -> (r: Result<(Player, GlobalStats, PlayerCreated), CustomError>)
    ensures
        r == create_player_result(*authority, player_exists, bump, now, referrer, referrer_player, *admin, *stats),
{
    if player_exists {
        return Err(CustomError::AccountAlreadyInUse);
    }
    let (u1, u2, u3) = match capture_uplines(referrer, referrer_player, admin, stats) {
        Ok(v) => v,
        Err(e) => {
            return Err(e);
        },
    };
    let player = Player {
        authority: *authority,
        bump,
        created_at: now,
        games_played: 0,
        upline1: u1,
        upline2: u2,
        upline3: u3,
    };
    let new_stats = GlobalStats {
        total_players: stats.total_players.saturating_add(1),
        last_player: *authority,
        bump: stats.bump,
    };
    Ok((player, new_stats, PlayerCreated { authority: *authority, timestamp: now }))
}

/// Registration with replay protection: a wallet that has a participant
/// record already is refused; the guard derived from the wallet
/// and the nonce must be the account handed over and must not exist yet;
/// then the participant is created as by `handle_create_player_v3`.
pub open spec fn register_player_result(
    authority: Key,
    player_exists: bool,
    bump: u8,
    now: i64,
    referrer: Option<Key>,
    nonce: u64,
    tx_guard: GuardAccount,
    referrer_player: Option<ReferrerAccount>,
    admin: Key,
    stats: GlobalStats,
) -> Result<(TxGuard, Player, GlobalStats, PlayerCreated), CustomError> {
    if player_exists {
        Err(CustomError::AccountAlreadyInUse)
    } else {
        match pda(register_guard_seeds(authority@, nonce)) {
            None => Err(CustomError::AddressDerivationFailed),
            Some((g, guard_bump)) => {
                if g != tx_guard.key@ {
                    Err(CustomError::KeyMismatch)
                } else if tx_guard.exists {
                    Err(CustomError::AccountAlreadyInUse)
                } else {
                    match create_player_result(authority, false, bump, now, referrer, referrer_player, admin, stats) {
                        Err(e) => Err(e),
                        Ok((p, s, ev)) => Ok((TxGuard { nonce, executed_at: now, bump: guard_bump }, p, s, ev)),
                    }
                }
            },
        }
    }
}

pub fn handle_register_player(
    authority: &Key,
    player_exists: bool,
    bump: u8,
    now: i64,
    referrer: Option<Key>,
    nonce: u64,
    tx_guard: &GuardAccount,
    referrer_player: Option<ReferrerAccount>,
    admin: &Key,
    stats: &GlobalStats,
) -> (r: Result<(TxGuard, Player, GlobalStats, PlayerCreated), CustomError>)
    ensures
        r == register_player_result(*authority, player_exists, bump, now, referrer, nonce, *tx_guard, referrer_player, *admin, *stats),
{
    if player_exists {
        return Err(CustomError::AccountAlreadyInUse);
    }
    let (guard_key, guard_bump) = match register_guard_address(authority, nonce) {
        Some(v) => v,
        None => {
            return Err(CustomError::AddressDerivationFailed);
        },
    };
    if !guard_key.same_as(&tx_guard.key) {
        proof {
            if guard_key@ == tx_guard.key@ {
                lemma_key_view_injective(guard_key, tx_guard.key);
            }
        }
        return Err(CustomError::KeyMismatch);
    }
    if tx_guard.exists {
        return Err(CustomError::AccountAlreadyInUse);
    }
    let tg = TxGuard { nonce, executed_at: now, bump: guard_bump };
    match handle_create_player_v3(authority, false, bump, now, referrer, referrer_player, admin, stats) {
        Ok((p, s, ev)) => Ok((tg, p, s, ev)),
        Err(e) => Err(e),
    }
}

} // verus!
