use vstd::prelude::*;
use crate::error::CustomError;
use crate::key::{Key, zero_key};

verus! {

/// A participant: one per wallet, with the upline captured at creation.
#[derive(Clone, Copy, Debug, PartialEq, Eq)]
pub struct Player {
    pub authority: Key,
    pub bump: u8,
    pub created_at: i64,
    pub games_played: u64,
    pub upline1: Key,
    pub upline2: Key,
    pub upline3: Key,
}

impl Player {
    pub const SIZE: usize = 32 + 1 + 8 + 8 + (32 * 3);
}

/// The replay guard of one request; its existence is what counts.
#[derive(Clone, Copy, Debug, PartialEq, Eq)]
pub struct TxGuard {
    pub nonce: u64,
    pub executed_at: i64,
    pub bump: u8,
}

impl TxGuard {
    pub const SIZE: usize = 8 + 8 + 1;
}

/// Global counters.
#[derive(Clone, Copy, Debug, PartialEq, Eq)]
pub struct GlobalStats {
    pub total_players: u64,
    pub last_player: Key,
    pub bump: u8,
}

impl GlobalStats {
    pub const SIZE: usize = 8 + 32 + 1;
}

/// An account that may receive a payment: its address, the program that
/// owns it, and how many data bytes it holds.
#[derive(Clone, Copy, Debug, PartialEq, Eq)]
pub struct WalletAccount {
    pub key: Key,
    pub owner: Key,
    pub data_len: usize,
}

/// A plain wallet: owned by the system program (the all-zero address) and
/// holding no data.
pub open spec fn is_system_wallet(w: WalletAccount) -> bool {
    w.owner == zero_key() && w.data_len == 0
}

/// Refuses any recipient that is not a plain wallet.
pub fn require_system_wallet(w: &WalletAccount) -> (r: Result<(), CustomError>)
    ensures
        r == if is_system_wallet(*w) {
            Ok::<(), CustomError>(())
        } else {
            Err(CustomError::RecipientMustBeSystemWallet)
        },
{
    let zero = Key::zero();
    if w.owner.same_as(&zero) && w.data_len == 0 {
        Ok(())
    } else {
        Err(CustomError::RecipientMustBeSystemWallet)
    }
}

/// A stored level-state record as handed over: its address, owning
/// program, and raw bytes.
#[derive(Debug)]
pub struct LevelStateAccount {
    pub key: Key,
    pub owner: Key,
    pub data: Vec<u8>,
}

/// A participant record as handed over.
#[derive(Clone, Copy, Debug, PartialEq, Eq)]
pub enum PlayerRecord {
    /// The account holds no data.
    Absent,
    Present(Player),
    /// The account holds data that is not a participant record.
    Unreadable,
}

/// The replay-guard account of a request: its address, and whether it
/// exists already.
#[derive(Clone, Copy, Debug, PartialEq, Eq)]
pub struct GuardAccount {
    pub key: Key,
    pub exists: bool,
}

/// A payment from the requesting wallet.
#[derive(Clone, Copy, Debug, PartialEq, Eq)]
pub struct Transfer {
    pub to: Key,
    pub lamports: u64,
}

} // verus!
