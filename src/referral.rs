use vstd::prelude::*;
use crate::accounts::LevelStateAccount;
use crate::address::{pda, player_seeds, level_state_seeds, player_address, level_state_address};
use crate::error::CustomError;
use crate::key::{Key, PROGRAM_ID_BYTES, lemma_key_view_injective};
use crate::level_state::{parse_level_state, try_deserialize_level_state};

verus! {

/// Whether the upline wallet has an open state on `level`, judged from the
/// account handed over for it: the account must be that wallet's level
/// state for the level, owned by this program, hold a record in the current
/// layout (an error when it does not), and that record must be activated and
/// belong to the wallet's participant record.
pub open spec fn level_open_result(upline: Key, level: u8, key: Key, owner: Key, data: Seq<u8>) -> Result<
    bool,
    CustomError,
> {
    match pda(player_seeds(upline@)) {
        None => Err(CustomError::AddressDerivationFailed),
        Some((player, _)) => match pda(level_state_seeds(player, level)) {
            None => Err(CustomError::AddressDerivationFailed),
            Some((expected, _)) => {
                if key@ != expected || owner@ != PROGRAM_ID_BYTES@ || data.len() == 0 {
                    Ok(false)
                } else {
                    match parse_level_state(data) {
                        None => Err(CustomError::AccountCastError),
                        Some(ls) => Ok(ls.level == level && ls.activated_at > 0 && ls.player@ == player),
                    }
                }
            },
        },
    }
}

pub fn is_level_open_for(upline_wallet: &Key, level: u8, level_state_ai: &LevelStateAccount) -> (r: Result<
    bool,
    CustomError,
>)
    ensures
        r == level_open_result(*upline_wallet, level, level_state_ai.key, level_state_ai.owner, level_state_ai.data@),
{
    let (player_pda, _) = match player_address(upline_wallet) {
        Some(v) => v,
        None => {
            return Err(CustomError::AddressDerivationFailed);
        },
    };
    let (expected_pda, _) = match level_state_address(&player_pda, level) {
        Some(v) => v,
        None => {
            return Err(CustomError::AddressDerivationFailed);
        },
    };
    if !level_state_ai.key.same_as(&expected_pda) {
        proof {
            if level_state_ai.key@ == expected_pda@ {
                lemma_key_view_injective(level_state_ai.key, expected_pda);
            }
        }
        return Ok(false);
    }
    let program_id = Key::program_id();
    if !level_state_ai.owner.same_as(&program_id) {
        proof {
            if level_state_ai.owner@ == program_id@ {
                lemma_key_view_injective(level_state_ai.owner, program_id);
            }
        }
        return Ok(false);
    }
    if level_state_ai.data.len() == 0 {
        return Ok(false);
    }
    let ls = match try_deserialize_level_state(&level_state_ai.data) {
        Ok(ls) => ls,
        Err(e) => {
            return Err(e);
        },
    };
    let same_player = ls.player.same_as(&player_pda);
    proof {
        if ls.player@ == player_pda@ {
            lemma_key_view_injective(ls.player, player_pda);
        }
    }
    Ok(ls.level == level && ls.activated_at > 0 && same_player)
}

/// The recipient of a referral share: the upline wallet when it has an open
/// state on the level, else the admin.
pub open spec fn resolved_referrer(upline: Key, level: u8, account: Option<(Key, Key, Seq<u8>)>, admin: Key) -> Key {
    match account {
        Some((key, owner, data)) => if level_open_result(upline, level, key, owner, data) == Ok::<
            bool,
            CustomError,
        >(true) {
            upline
        } else {
            admin
        },
        None => admin,
    }
}

/// The address, owner and bytes of an optional level-state account.
pub open spec fn account_parts(a: Option<LevelStateAccount>) -> Option<(Key, Key, Seq<u8>)> {
    match a {
        Some(a) => Some((a.key, a.owner, a.data@)),
        None => None,
    }
}

pub fn resolve_ref_with_level_or_admin(
    upline_key: &Key,
    level: u8,
    level_state_ai_opt: &Option<LevelStateAccount>,
    cfg_admin: &Key,
) -> (r: Key)
    ensures
        r == resolved_referrer(*upline_key, level, account_parts(*level_state_ai_opt), *cfg_admin),
{
    if let Some(ai) = level_state_ai_opt {
        if let Ok(true) = is_level_open_for(upline_key, level, ai) {
            return *upline_key;
        }
    }
    *cfg_admin
}

} // verus!
