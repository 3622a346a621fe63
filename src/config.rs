use vstd::prelude::*;
use crate::accounts::GlobalStats;
use crate::error::CustomError;
use crate::key::{Key, zero_key};
use crate::payout::{PERC_OWNER, PERC_REF1, PERC_REF2, PERC_REF3, PERC_TREASURY_BASE, PERC_TOTAL};

verus! {

/// Highest level number of the scheme.
pub const MAX_LEVEL: u8 = 16;

/// Number of participant entries that one queue page holds.
pub const QUEUE_PAGE_CAPACITY_DEFAULT: usize = 64;

/// Fixed price of each level, level 1 first.
pub const LEVEL_PRICES_LAMPORTS: [u64; 16] = [
    50_000_000,
    180_000_000,
    360_000_000,
    680_000_000,
    1_100_000_000,
    1_550_000_000,
    2_100_000_000,
    2_650_000_000,
    3_250_000_000,
    3_900_000_000,
    4_650_000_000,
    5_450_000_000,
    6_400_000_000,
    7_350_000_000,
    8_000_000_000,
    8_700_000_000,
];

pub open spec fn level_price(level: u8) -> u64 {
    if 1 <= level <= MAX_LEVEL {
        LEVEL_PRICES_LAMPORTS@[level - 1]
    } else {
        0
    }
}

pub fn expected_price(level: u8) -> (r: u64)
    ensures
        r == level_price(level),
{
    if level == 0 || level > MAX_LEVEL {
        return 0;
    }
    LEVEL_PRICES_LAMPORTS[(level - 1) as usize]
}

} // verus!

verus! {

/// Least number of slots after which an owner recycles, whatever is
/// configured.
pub const MIN_SLOTS_TO_RECYCLE: u8 = 3;

/// The program's single configuration record.
#[derive(Clone, Copy, Debug, PartialEq, Eq)]
pub struct ConfigV3 {
    pub admin: Key,
    pub treasury: Key,
    pub perc_admin: u8,
    pub perc_ref1: u8,
    pub perc_ref2: u8,
    pub perc_ref3: u8,
    pub perc_treasury: u8,
    pub base_price_lamports: u64,
    pub price_ratio: u8,
    pub min_entry_delay: u32,
    pub auto_recycle: bool,
    pub slots_to_recycle: u8,
    pub max_levels: u8,
    pub bump: u8,
    pub version: u8,
    pub version_minor: u8,
}

impl ConfigV3 {
    pub const SIZE: usize = 32 + 32 + 5 + 8 + 1 + 4 + 1 + 1 + 1 + 1 + 1 + 1 + 1;
}

/// The fixed price of a level; the configuration does not change it.
pub fn expected_price_from_cfg(level: u8, _cfg: &ConfigV3) -> (r: u64)
    ensures
        r == level_price(level),
{
    expected_price(level)
}

/// The number of slots after which an owner recycles: the configured
/// number, but never fewer than three.
pub open spec fn recycle_threshold(slots_to_recycle: u8) -> u64 {
    if slots_to_recycle < MIN_SLOTS_TO_RECYCLE {
        MIN_SLOTS_TO_RECYCLE as u64
    } else {
        slots_to_recycle as u64
    }
}

pub fn effective_threshold(slots_to_recycle: u8) -> (r: u64)
    ensures
        r == recycle_threshold(slots_to_recycle),
        r >= 3,
{
    if slots_to_recycle < MIN_SLOTS_TO_RECYCLE {
        MIN_SLOTS_TO_RECYCLE as u64
    } else {
        slots_to_recycle as u64
    }
}

/// The threshold is never below three, even when one or two slots are
/// configured, and otherwise is the configured number.
pub proof fn lemma_threshold_floor(slots_to_recycle: u8)
    ensures
        recycle_threshold(slots_to_recycle) >= 3,
        slots_to_recycle >= 3 ==> recycle_threshold(slots_to_recycle) == slots_to_recycle,
{
}

/// The configuration and counters that initialisation writes.
pub open spec fn init_config_result(
    admin: Key,
    treasury: Key,
    base_price_lamports: u64,
    price_ratio: u8,
    min_entry_delay: u32,
    auto_recycle: bool,
    slots_to_recycle: u8,
    max_levels: u8,
    config_bump: u8,
    stats_bump: u8,
) -> Result<(ConfigV3, GlobalStats), CustomError> {
    if max_levels == 0 || max_levels > MAX_LEVEL {
        Err(CustomError::InvalidLevel)
    } else {
        Ok((
            ConfigV3 {
                admin,
                treasury,
                perc_admin: PERC_OWNER as u8,
                perc_ref1: PERC_REF1 as u8,
                perc_ref2: PERC_REF2 as u8,
                perc_ref3: PERC_REF3 as u8,
                perc_treasury: PERC_TREASURY_BASE as u8,
                base_price_lamports,
                price_ratio: if price_ratio < 1 { 1 } else { price_ratio },
                min_entry_delay,
                auto_recycle,
                slots_to_recycle: if slots_to_recycle < 3 { 3 } else { slots_to_recycle },
                max_levels,
                bump: config_bump,
                version: 3,
                version_minor: 12,
            },
            GlobalStats { total_players: 0, last_player: zero_key(), bump: stats_bump },
        ))
    }
}

/// Builds the configuration and counters. The percentages handed in are
/// not used: the fixed shares are stored instead, after a check that they
/// add up to 100.
pub fn handle_init_config_v3(
    admin: Key,
    treasury: Key,
    _perc_admin: u8,
    _perc_ref1: u8,
    _perc_ref2: u8,
    _perc_ref3: u8,
    _perc_treasury: u8,
    base_price_lamports: u64,
    price_ratio: u8,
    min_entry_delay: u32,
    auto_recycle: bool,
    slots_to_recycle: u8,
    max_levels: u8,
    config_bump: u8,
    stats_bump: u8,
) -> (r: Result<(ConfigV3, GlobalStats), CustomError>)
    ensures
        r == init_config_result(
            admin,
            treasury,
            base_price_lamports,
            price_ratio,
            min_entry_delay,
            auto_recycle,
            slots_to_recycle,
            max_levels,
            config_bump,
            stats_bump,
        ),
{
    if !(max_levels > 0 && max_levels <= MAX_LEVEL) {
        return Err(CustomError::InvalidLevel);
    }
    if PERC_OWNER + PERC_REF1 + PERC_REF2 + PERC_REF3 + PERC_TREASURY_BASE != PERC_TOTAL {
        return Err(CustomError::InvalidDistribution);
    }
    let cfg = ConfigV3 {
        admin,
        treasury,
        perc_admin: PERC_OWNER as u8,
        perc_ref1: PERC_REF1 as u8,
        perc_ref2: PERC_REF2 as u8,
        perc_ref3: PERC_REF3 as u8,
        perc_treasury: PERC_TREASURY_BASE as u8,
        base_price_lamports,
        price_ratio: if price_ratio < 1 { 1 } else { price_ratio },
        min_entry_delay,
        auto_recycle,
        slots_to_recycle: if slots_to_recycle < 3 { 3 } else { slots_to_recycle },
        max_levels,
        bump: config_bump,
        version: 3,
        version_minor: 12,
    };
    let stats = GlobalStats { total_players: 0, last_player: Key::zero(), bump: stats_bump };
    Ok((cfg, stats))
}

} // verus!
