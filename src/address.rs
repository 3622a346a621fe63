use vstd::prelude::*;
use vstd::bytes::{spec_u32_to_le_bytes, spec_u64_to_le_bytes, u32_to_le_bytes, u64_to_le_bytes};
use crate::key::{Key, PROGRAM_ID_BYTES};

verus! {

/// The program address, with its bump, that the seeds give under a program
/// id; `None` when none can be derived.
pub uninterp spec fn program_address_of(seeds: Seq<Seq<u8>>, program_id: Seq<u8>) -> Option<(Seq<u8>, u8)>;

/// Relies on `Pubkey::try_find_program_address`: the address and bump that it
/// finds are a function of the seeds and the program id alone.
#[verifier::external_body]
fn try_find_program_address(seeds: &Vec<Vec<u8>>, program_id: &Key) -> (r: Option<(Key, u8)>)
    ensures
        key_and_bump(r) == program_address_of(seeds.deep_view(), program_id@),
{
    let refs: Vec<&[u8]> = seeds.iter().map(|s| s.as_slice()).collect();
    let id = anchor_lang::prelude::Pubkey::new_from_array(program_id.bytes);
    anchor_lang::prelude::Pubkey::try_find_program_address(&refs, &id)
        .map(|(k, b)| (Key { bytes: k.to_bytes() }, b))
}

/// The bytes and bump of a derived address.
pub open spec fn key_and_bump(r: Option<(Key, u8)>) -> Option<(Seq<u8>, u8)> {
    match r {
        Some((k, b)) => Some((k@, b)),
        None => None,
    }
}

/// The address of this program that the seeds give.
pub open spec fn pda(seeds: Seq<Seq<u8>>) -> Option<(Seq<u8>, u8)> {
    program_address_of(seeds, PROGRAM_ID_BYTES@)
}

/// True when `key` is the address that the seeds give.
pub open spec fn is_pda_of(key: Key, seeds: Seq<Seq<u8>>) -> bool {
    pda(seeds) is Some && pda(seeds).unwrap().0 == key@
}

pub open spec fn player_seeds(wallet: Seq<u8>) -> Seq<Seq<u8>> {
    seq![seq![112u8, 108, 97, 121, 101, 114] /* "player" */, wallet]
}

pub open spec fn level_state_seeds(player: Seq<u8>, level: u8) -> Seq<Seq<u8>> {
    seq![seq![108u8, 118, 108] /* "lvl" */, player, seq![level]]
}

pub open spec fn level_pool_seeds(config: Seq<u8>, level: u8) -> Seq<Seq<u8>> {
    seq![
        seq![108u8, 101, 118, 101, 108, 95, 112, 111, 111, 108, 95, 118, 49] /* "level_pool_v1" */,
        config,
        seq![level],
    ]
}

pub open spec fn queue_page_seeds(pool: Seq<u8>, page_index: u32) -> Seq<Seq<u8>> {
    seq![
        seq![113u8, 117, 101, 117, 101, 95, 112, 97, 103, 101, 95, 118, 49] /* "queue_page_v1" */,
        pool,
        spec_u32_to_le_bytes(page_index),
    ]
}

/// Operation-kind tag of a level activation in its replay-guard seeds.
pub const ACTIVATION_KIND_TAG: u8 = 1;

pub open spec fn activation_guard_seeds(player: Seq<u8>, level: u8, nonce: u64) -> Seq<Seq<u8>> {
    seq![seq![116u8, 120] /* "tx" */, player, seq![ACTIVATION_KIND_TAG], seq![level], spec_u64_to_le_bytes(nonce)]
}

pub open spec fn register_guard_seeds(authority: Seq<u8>, nonce: u64) -> Seq<Seq<u8>> {
    seq![
        seq![116u8, 120] /* "tx" */,
        seq![114u8, 101, 103, 105, 115, 116, 101, 114] /* "register" */,
        authority,
        spec_u64_to_le_bytes(nonce),
    ]
}

fn derive(seeds: &Vec<Vec<u8>>) -> (r: Option<(Key, u8)>)
    ensures
        key_and_bump(r) == pda(seeds.deep_view()),
{
    let id = Key::program_id();
    try_find_program_address(seeds, &id)
}

/// Address of the participant record of a wallet.
pub fn player_address(wallet: &Key) -> (r: Option<(Key, u8)>)
    ensures
        key_and_bump(r) == pda(player_seeds(wallet@)),
{
    let seeds = vec![vec![112u8, 108, 97, 121, 101, 114] /* "player" */, wallet.to_vec()];
    assert(seeds.deep_view() =~~= player_seeds(wallet@));
    derive(&seeds)
}

/// Address of the per-level state of a participant record.
pub fn level_state_address(player: &Key, level: u8) -> (r: Option<(Key, u8)>)
    ensures
        key_and_bump(r) == pda(level_state_seeds(player@, level)),
{
    let seeds = vec![vec![108u8, 118, 108] /* "lvl" */, player.to_vec(), vec![level]];
    assert(seeds.deep_view() =~~= level_state_seeds(player@, level));
    derive(&seeds)
}

/// Address of the queue pool of a level.
pub fn level_pool_address(config: &Key, level: u8) -> (r: Option<(Key, u8)>)
    ensures
        key_and_bump(r) == pda(level_pool_seeds(config@, level)),
{
    let seeds = vec![
        vec![108u8, 101, 118, 101, 108, 95, 112, 111, 111, 108, 95, 118, 49] /* "level_pool_v1" */,
        config.to_vec(),
        vec![level],
    ];
    assert(seeds.deep_view() =~~= level_pool_seeds(config@, level));
    derive(&seeds)
}

/// Seeds of the queue page with the given index in a pool.
pub fn page_seeds(pool: &Key, page_index: u32) -> (r: Vec<Vec<u8>>)
    ensures
        r.deep_view() == queue_page_seeds(pool@, page_index),
{
    let seeds = vec![
        vec![113u8, 117, 101, 117, 101, 95, 112, 97, 103, 101, 95, 118, 49] /* "queue_page_v1" */,
        pool.to_vec(),
        u32_to_le_bytes(page_index),
    ];
    assert(seeds.deep_view() =~~= queue_page_seeds(pool@, page_index));
    seeds
}

/// Address of the queue page with the given index in a pool.
pub fn queue_page_address(pool: &Key, page_index: u32) -> (r: Option<(Key, u8)>)
    ensures
        key_and_bump(r) == pda(queue_page_seeds(pool@, page_index)),
{
    let seeds = page_seeds(pool, page_index);
    derive(&seeds)
}

/// Address of the replay guard of one level activation.
pub fn activation_guard_address(player: &Key, level: u8, nonce: u64) -> (r: Option<(Key, u8)>)
    ensures
        key_and_bump(r) == pda(activation_guard_seeds(player@, level, nonce)),
{
    let seeds = vec![
        vec![116u8, 120] /* "tx" */,
        player.to_vec(),
        vec![ACTIVATION_KIND_TAG],
        vec![level],
        u64_to_le_bytes(nonce),
    ];
    assert(seeds.deep_view() =~~= activation_guard_seeds(player@, level, nonce));
    derive(&seeds)
}

/// Address of the replay guard of one registration.
pub fn register_guard_address(authority: &Key, nonce: u64) -> (r: Option<(Key, u8)>)
    ensures
        key_and_bump(r) == pda(register_guard_seeds(authority@, nonce)),
{
    let seeds = vec![
        vec![116u8, 120] /* "tx" */,
        vec![114u8, 101, 103, 105, 115, 116, 101, 114] /* "register" */,
        authority.to_vec(),
        u64_to_le_bytes(nonce),
    ];
    assert(seeds.deep_view() =~~= register_guard_seeds(authority@, nonce));
    derive(&seeds)
}

} // verus!
