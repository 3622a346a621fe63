use solana_game::config::{
    effective_threshold, expected_price, expected_price_from_cfg, handle_init_config_v3, ConfigV3, MAX_LEVEL,
    QUEUE_PAGE_CAPACITY_DEFAULT,
};
use solana_game::accounts::Transfer;
use solana_game::activation::{fill_owner_slot, safe_transfer};
use solana_game::error::CustomError;
use solana_game::level_state::LevelState;
use solana_game::key::Key;
use solana_game::payout::{calc_share, compute_payouts, Payouts, PERC_OWNER, PERC_REF1, PERC_REF2, PERC_REF3};

fn key(n: u8) -> Key {
    Key::new([n; 32])
}

fn sample_config() -> ConfigV3 {
    handle_init_config_v3(key(201), key(202), 1, 2, 3, 4, 5, 10, 0, 0, false, 1, 16, 7, 8).unwrap().0
}

#[test]
fn shares_of_level_one_price() {
    assert_eq!(calc_share(50_000_000, PERC_OWNER), 30_000_000);
    assert_eq!(calc_share(50_000_000, PERC_REF1), 6_500_000);
    assert_eq!(calc_share(50_000_000, PERC_REF2), 4_000_000);
    assert_eq!(calc_share(50_000_000, PERC_REF3), 2_500_000);
}

#[test]
fn share_saturates_instead_of_overflowing() {
    assert_eq!(calc_share(u64::MAX, 60), u64::MAX / 100);
    assert_eq!(calc_share(0, 60), 0);
}

#[test]
fn split_with_every_referrer_paid() {
    let p = compute_payouts(50_000_000, &key(11), &key(12), &key(13), &key(201), &key(202));
    assert_eq!(
        p,
        Payouts { owner: 30_000_000, ref1: 6_500_000, ref2: 4_000_000, ref3: 2_500_000, treasury: 7_000_000 }
    );
}

#[test]
fn split_folds_admin_and_treasury_referrers() {
    let p = compute_payouts(50_000_000, &key(201), &key(202), &key(13), &key(201), &key(202));
    assert_eq!(p.owner, 30_000_000);
    assert_eq!(p.ref1, 0);
    assert_eq!(p.ref2, 0);
    assert_eq!(p.ref3, 2_500_000);
    assert_eq!(p.treasury, 7_000_000 + 6_500_000 + 4_000_000);
}

#[test]
fn split_always_sums_to_price() {
    let prices: [u64; 8] = [0, 1, 99, 101, 50_000_000, 8_700_000_000, u64::MAX / 60 + 1, u64::MAX];
    for price in prices {
        for (r1, r2, r3) in [(key(11), key(12), key(13)), (key(201), key(201), key(201)), (key(202), key(12), key(201))] {
            let p = compute_payouts(price, &r1, &r2, &r3, &key(201), &key(202));
            let sum = p.owner as u128 + p.ref1 as u128 + p.ref2 as u128 + p.ref3 as u128 + p.treasury as u128;
            assert_eq!(sum, price as u128);
        }
    }
}

#[test]
fn rounding_remainder_goes_to_treasury() {
    let p = compute_payouts(99, &key(11), &key(12), &key(13), &key(201), &key(202));
    assert_eq!((p.owner, p.ref1, p.ref2, p.ref3), (59, 12, 7, 4));
    assert_eq!(p.treasury, 17);
}

#[test]
fn level_price_table() {
    assert_eq!(expected_price(0), 0);
    assert_eq!(expected_price(1), 50_000_000);
    assert_eq!(expected_price(2), 180_000_000);
    assert_eq!(expected_price(MAX_LEVEL), 8_700_000_000);
    assert_eq!(expected_price(17), 0);
    assert_eq!(expected_price_from_cfg(5, &sample_config()), 1_100_000_000);
}

#[test]
fn threshold_never_below_three() {
    assert_eq!(effective_threshold(0), 3);
    assert_eq!(effective_threshold(1), 3);
    assert_eq!(effective_threshold(2), 3);
    assert_eq!(effective_threshold(3), 3);
    assert_eq!(effective_threshold(7), 7);
}

#[test]
fn init_config_rejects_level_count_out_of_range() {
    let r0 = handle_init_config_v3(key(201), key(202), 60, 13, 8, 5, 14, 10, 2, 0, false, 3, 0, 1, 2);
    assert_eq!(r0.err(), Some(CustomError::InvalidLevel));
    let r17 = handle_init_config_v3(key(201), key(202), 60, 13, 8, 5, 14, 10, 2, 0, false, 3, 17, 1, 2);
    assert_eq!(r17.err(), Some(CustomError::InvalidLevel));
}

#[test]
fn init_config_stores_fixed_shares_and_floors() {
    let (cfg, stats) = handle_init_config_v3(key(201), key(202), 1, 2, 3, 4, 5, 10, 0, 30, true, 1, 16, 7, 8).unwrap();
    assert_eq!(cfg.admin, key(201));
    assert_eq!(cfg.treasury, key(202));
    assert_eq!((cfg.perc_admin, cfg.perc_ref1, cfg.perc_ref2, cfg.perc_ref3, cfg.perc_treasury), (60, 13, 8, 5, 14));
    assert_eq!(cfg.price_ratio, 1);
    assert_eq!(cfg.slots_to_recycle, 3);
    assert_eq!(cfg.min_entry_delay, 30);
    assert!(cfg.auto_recycle);
    assert_eq!(cfg.max_levels, 16);
    assert_eq!((cfg.bump, cfg.version, cfg.version_minor), (7, 3, 12));
    assert_eq!(stats.total_players, 0);
    assert_eq!(stats.last_player, Key::zero());
    assert_eq!(stats.bump, 8);
    assert_eq!(QUEUE_PAGE_CAPACITY_DEFAULT, 64);
}

fn owner_state(activated_at: i64, slots_filled: u64, cycles: u64) -> LevelState {
    LevelState {
        player: key(1),
        authority: key(2),
        level: 1,
        bump: 9,
        activated_at,
        cycles,
        slots_filled,
        head_page: None,
        tail_page: None,
    }
}

#[test]
fn slots_fill_then_recycle_at_three_even_when_one_is_configured() {
    let mut ls = owner_state(10, 0, 4);
    assert_eq!(fill_owner_slot(&mut ls, 1), Ok(false));
    assert_eq!((ls.slots_filled, ls.cycles), (1, 4));
    assert_eq!(fill_owner_slot(&mut ls, 1), Ok(false));
    assert_eq!((ls.slots_filled, ls.cycles), (2, 4));
    assert_eq!(fill_owner_slot(&mut ls, 1), Ok(true));
    assert_eq!((ls.slots_filled, ls.cycles), (0, 5));
}

#[test]
fn larger_configured_threshold_is_honoured() {
    let mut ls = owner_state(10, 3, 0);
    assert_eq!(fill_owner_slot(&mut ls, 5), Ok(false));
    assert_eq!(ls.slots_filled, 4);
    assert_eq!(fill_owner_slot(&mut ls, 5), Ok(true));
    assert_eq!((ls.slots_filled, ls.cycles), (0, 1));
}

#[test]
fn cycle_count_saturates() {
    let mut ls = owner_state(10, 2, u64::MAX);
    assert_eq!(fill_owner_slot(&mut ls, 3), Ok(true));
    assert_eq!(ls.cycles, u64::MAX);
}

#[test]
fn full_or_inactive_owner_is_refused() {
    let mut full = owner_state(10, 3, 0);
    assert_eq!(fill_owner_slot(&mut full, 3), Err(CustomError::SlotsAlreadyFull));
    assert_eq!(full.slots_filled, 3);
    let mut inactive = owner_state(0, 0, 0);
    assert_eq!(fill_owner_slot(&mut inactive, 3), Err(CustomError::LevelNotActivated));
    let mut negative = owner_state(-1, 0, 0);
    assert_eq!(fill_owner_slot(&mut negative, 3), Err(CustomError::LevelNotActivated));
}

#[test]
fn zero_payments_are_skipped() {
    let mut t = Vec::new();
    safe_transfer(&mut t, &key(3), 0);
    assert!(t.is_empty());
    safe_transfer(&mut t, &key(3), 5);
    assert_eq!(t, vec![Transfer { to: key(3), lamports: 5 }]);
}
