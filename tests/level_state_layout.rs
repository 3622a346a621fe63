use solana_game::error::CustomError;
use solana_game::key::Key;
use solana_game::level_state::{
    load_or_migrate_level_state, migrate_legacy_level_state, read_legacy_level_state, serialize_level_state,
    store_level_state, try_deserialize_level_state, LevelState, LEVEL_STATE_DISCRIMINATOR, LEVEL_STATE_SIZE,
};

fn key(n: u8) -> Key {
    Key::new([n; 32])
}

fn sample(head: Option<Key>, tail: Option<Key>) -> LevelState {
    LevelState {
        player: key(1),
        authority: key(2),
        level: 3,
        bump: 254,
        activated_at: -5,
        cycles: 0x0102_0304_0506_0708,
        slots_filled: 2,
        head_page: head,
        tail_page: tail,
    }
}

/// A record in the oldest layout: a tag, then the fixed fields only, in
/// zero-filled storage of the full account size.
fn oldest_layout(tag: [u8; 8], ls: &LevelState) -> Vec<u8> {
    let mut d = tag.to_vec();
    d.extend_from_slice(&ls.player.bytes);
    d.extend_from_slice(&ls.authority.bytes);
    d.push(ls.level);
    d.push(ls.bump);
    d.extend_from_slice(&ls.activated_at.to_le_bytes());
    d.extend_from_slice(&ls.cycles.to_le_bytes());
    d.extend_from_slice(&ls.slots_filled.to_le_bytes());
    d.resize(8 + LEVEL_STATE_SIZE, 0);
    d
}

#[test]
fn encoded_layout_is_tag_then_fields() {
    let ls = sample(None, Some(key(9)));
    let bytes = serialize_level_state(&ls);
    assert_eq!(bytes.len(), 8 + 90 + 1 + 33);
    assert_eq!(&bytes[0..8], &LEVEL_STATE_DISCRIMINATOR);
    assert_eq!(&bytes[8..40], &[1u8; 32]);
    assert_eq!(&bytes[40..72], &[2u8; 32]);
    assert_eq!(bytes[72], 3);
    assert_eq!(bytes[73], 254);
    assert_eq!(&bytes[74..82], &(-5i64).to_le_bytes());
    assert_eq!(&bytes[82..90], &0x0102_0304_0506_0708u64.to_le_bytes());
    assert_eq!(bytes[98], 0);
    assert_eq!(bytes[99], 1);
    assert_eq!(&bytes[100..132], &[9u8; 32]);
}

#[test]
fn record_round_trips_with_trailing_bytes() {
    let ls = sample(Some(key(7)), Some(key(8)));
    let mut bytes = serialize_level_state(&ls);
    bytes.extend_from_slice(&[0xAA; 10]);
    assert_eq!(try_deserialize_level_state(&bytes), Ok(ls));
}

#[test]
fn wrong_tag_or_short_record_is_refused() {
    let ls = sample(None, None);
    let mut bytes = serialize_level_state(&ls);
    bytes[0] ^= 1;
    assert_eq!(try_deserialize_level_state(&bytes), Err(CustomError::AccountCastError));
    let short = serialize_level_state(&ls)[..97].to_vec();
    assert_eq!(try_deserialize_level_state(&short), Err(CustomError::AccountCastError));
    let mut bad_option = serialize_level_state(&ls);
    bad_option[98] = 2;
    assert_eq!(try_deserialize_level_state(&bad_option), Err(CustomError::AccountCastError));
}

#[test]
fn positional_reader_clamps_missing_fields() {
    let mut d = vec![0u8; 8];
    d.extend_from_slice(&[5u8; 20]);
    let ls = read_legacy_level_state(&d);
    assert_eq!(ls.player, Key::zero());
    assert_eq!(ls.authority, Key::zero());
    assert_eq!(ls.level, 5);
    assert_eq!(ls.bump, 5);
    assert_eq!(ls.activated_at, i64::from_le_bytes([5; 8]));
    assert_eq!(ls.cycles, u64::from_le_bytes([5; 8]));
    assert_eq!(ls.slots_filled, 0);
    assert_eq!(ls.head_page, None);
    assert_eq!(ls.tail_page, None);
}

#[test]
fn oldest_layout_migrates_to_current_record() {
    let ls = sample(None, None);
    let mut data = oldest_layout([9, 9, 9, 9, 9, 9, 9, 9], &ls);
    let migrated = migrate_legacy_level_state(&mut data).unwrap();
    assert_eq!(migrated, ls);
    assert_eq!(data.len(), 8 + LEVEL_STATE_SIZE);
    let direct = serialize_level_state(&ls);
    assert_eq!(&data[..direct.len()], &direct[..]);
    assert!(data[direct.len()..].iter().all(|b| *b == 0));
}

#[test]
fn normalising_twice_keeps_identical_bytes() {
    let ls = sample(None, None);
    let mut data = oldest_layout([1, 2, 3, 4, 5, 6, 7, 8], &ls);
    let first = load_or_migrate_level_state(&mut data).unwrap();
    let after_first = data.clone();
    let second = load_or_migrate_level_state(&mut data).unwrap();
    assert_eq!(first, ls);
    assert_eq!(second, ls);
    assert_eq!(data, after_first);
}

#[test]
fn current_record_is_loaded_without_rewrite() {
    let ls = sample(Some(key(4)), None);
    let mut data = serialize_level_state(&ls);
    data.resize(8 + LEVEL_STATE_SIZE, 0x11);
    let before = data.clone();
    assert_eq!(load_or_migrate_level_state(&mut data), Ok(ls));
    assert_eq!(data, before);
}

#[test]
fn migration_needs_a_tag_and_room() {
    let mut tiny = vec![1u8, 2, 3];
    assert_eq!(migrate_legacy_level_state(&mut tiny), Err(CustomError::AccountCastError));
    assert_eq!(tiny, vec![1u8, 2, 3]);
    let ls = sample(None, None);
    let mut cramped = oldest_layout([0; 8], &ls)[..98].to_vec();
    assert_eq!(load_or_migrate_level_state(&mut cramped), Err(CustomError::AccountCastError));
}

#[test]
fn store_overwrites_front_only() {
    let ls = sample(None, None);
    let mut data = vec![0x77u8; 120];
    store_level_state(&mut data, &ls).unwrap();
    assert_eq!(try_deserialize_level_state(&data), Ok(ls));
    assert_eq!(&data[100..], &[0x77u8; 20]);
    let mut small = vec![0u8; 50];
    assert_eq!(store_level_state(&mut small, &ls), Err(CustomError::AccountCastError));
}
