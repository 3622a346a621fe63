use vstd::prelude::*;
use vstd::bytes::{spec_u64_from_le_bytes, spec_u64_to_le_bytes, u64_from_le_bytes, u64_to_le_bytes};
use crate::error::CustomError;
use crate::key::{Key, key_from_seq, zero_key, lemma_key_round_trip};

verus! {

/// State of one participant on one level.
#[derive(Clone, Copy, Debug, PartialEq, Eq)]
pub struct LevelState {
    pub player: Key,
    pub authority: Key,
    pub level: u8,
    pub bump: u8,
    /// Activation time; 0 means never activated.
    pub activated_at: i64,
    pub cycles: u64,
    pub slots_filled: u64,
    /// Kept only so that the record keeps its layout.
    pub head_page: Option<Key>,
    /// Kept only so that the record keeps its layout.
    pub tail_page: Option<Key>,
}

/// Tag that opens every stored level-state record.
pub const LEVEL_STATE_DISCRIMINATOR: [u8; 8] = [231, 36, 36, 157, 220, 12, 175, 9];

/// Length of the record body without the two trailing optional fields.
pub const LEVEL_STATE_FIXED_LEN: usize = 98;

/// Size of the record body after its tag, with both optional fields present.
pub const LEVEL_STATE_SIZE: usize = 156;

// ---------------------------------------------------------------------------
// Layout
// ---------------------------------------------------------------------------

/// Two's-complement bits of a signed value.
pub open spec fn i64_bits(v: i64) -> u64 {
    if v >= 0 {
        v as u64
    } else {
        (v + 0x1_0000_0000_0000_0000) as u64
    }
}

/// The signed value of two's-complement bits.
pub open spec fn i64_of_bits(u: u64) -> i64 {
    if u < 0x8000_0000_0000_0000 {
        u as i64
    } else {
        (u - 0x1_0000_0000_0000_0000) as i64
    }
}

pub open spec fn option_key_bytes(k: Option<Key>) -> Seq<u8> {
    match k {
        None => seq![0u8],
        Some(k) => seq![1u8] + k@,
    }
}

/// The fields that every layout of the record has, in order.
pub open spec fn fixed_field_bytes(ls: LevelState) -> Seq<u8> {
    ls.player@ + ls.authority@ + seq![ls.level, ls.bump] + spec_u64_to_le_bytes(i64_bits(ls.activated_at))
        + spec_u64_to_le_bytes(ls.cycles) + spec_u64_to_le_bytes(ls.slots_filled)
}

/// The stored form of a record in the current layout.
pub open spec fn encode_level_state(ls: LevelState) -> Seq<u8> {
    LEVEL_STATE_DISCRIMINATOR@ + fixed_field_bytes(ls) + option_key_bytes(ls.head_page)
        + option_key_bytes(ls.tail_page)
}

/// An optional address at `at`: its value and where the next field starts.
pub open spec fn parse_option_key(d: Seq<u8>, at: int) -> Option<(Option<Key>, int)> {
    if at < 0 || at >= d.len() {
        None
    } else if d[at] == 0 {
        Some((None, at + 1))
    } else if d[at] == 1 && at + 33 <= d.len() {
        Some((Some(key_from_seq(d.subrange(at + 1, at + 33))), at + 33))
    } else {
        None
    }
}

/// The fixed fields of a record of at least `LEVEL_STATE_FIXED_LEN` bytes.
pub open spec fn fixed_fields(d: Seq<u8>) -> LevelState {
    LevelState {
        player: key_from_seq(d.subrange(8, 40)),
        authority: key_from_seq(d.subrange(40, 72)),
        level: d[72],
        bump: d[73],
        activated_at: i64_of_bits(spec_u64_from_le_bytes(d.subrange(74, 82))),
        cycles: spec_u64_from_le_bytes(d.subrange(82, 90)),
        slots_filled: spec_u64_from_le_bytes(d.subrange(90, 98)),
        head_page: None,
        tail_page: None,
    }
}

/// The record that `d` holds in the current layout, if it holds one.
/// Bytes after the record are ignored.
pub open spec fn parse_level_state(d: Seq<u8>) -> Option<LevelState> {
    if d.len() < LEVEL_STATE_FIXED_LEN || d.subrange(0, 8) != LEVEL_STATE_DISCRIMINATOR@ {
        None
    } else {
        match parse_option_key(d, 98) {
            None => None,
            Some((head, at)) => match parse_option_key(d, at) {
                None => None,
                Some((tail, _)) => Some(LevelState { head_page: head, tail_page: tail, ..fixed_fields(d) }),
            },
        }
    }
}

// ---------------------------------------------------------------------------
// Positional reader for older layouts
// ---------------------------------------------------------------------------

/// A byte at `at`, or 0 past the end; the position advances only on a read.
pub open spec fn clamped_u8(d: Seq<u8>, at: int) -> (u8, int) {
    if at + 1 <= d.len() {
        (d[at], at + 1)
    } else {
        (0, at)
    }
}

pub open spec fn clamped_u64(d: Seq<u8>, at: int) -> (u64, int) {
    if at + 8 <= d.len() {
        (spec_u64_from_le_bytes(d.subrange(at, at + 8)), at + 8)
    } else {
        (0, at)
    }
}

pub open spec fn clamped_i64(d: Seq<u8>, at: int) -> (i64, int) {
    let (u, next) = clamped_u64(d, at);
    (i64_of_bits(u), next)
}

pub open spec fn clamped_key(d: Seq<u8>, at: int) -> (Key, int) {
    if at + 32 <= d.len() {
        (key_from_seq(d.subrange(at, at + 32)), at + 32)
    } else {
        (zero_key(), at)
    }
}

/// An optional address: none past the end or under a zero tag, and none
/// when a non-zero tag is not followed by a whole address.
pub open spec fn clamped_option_key(d: Seq<u8>, at: int) -> (Option<Key>, int) {
    if at >= d.len() {
        (None, at)
    } else if d[at] == 0 {
        (None, at + 1)
    } else if at + 33 <= d.len() {
        (Some(key_from_seq(d.subrange(at + 1, at + 33))), at + 33)
    } else {
        (None, at + 1)
    }
}

/// The record that the positional reader rebuilds from `d`, whatever layout
/// it was written in: each field is read in order after the 8-byte tag, and
/// a field that runs past the end reads as zero or empty.
pub open spec fn legacy_level_state(d: Seq<u8>) -> LevelState {
    let (player, a1) = clamped_key(d, 8);
    let (authority, a2) = clamped_key(d, a1);
    let (level, a3) = clamped_u8(d, a2);
    let (bump, a4) = clamped_u8(d, a3);
    let (activated_at, a5) = clamped_i64(d, a4);
    let (cycles, a6) = clamped_u64(d, a5);
    let (slots_filled, a7) = clamped_u64(d, a6);
    let (head_page, a8) = clamped_option_key(d, a7);
    let (tail_page, _) = clamped_option_key(d, a8);
    LevelState { player, authority, level, bump, activated_at, cycles, slots_filled, head_page, tail_page }
}

/// The record and the stored bytes after an in-place migration of `d`:
/// the rebuilt record overwrites the front of the storage, whose length
/// stays. `None` when `d` has no tag or the record does not fit.
pub open spec fn migrated(d: Seq<u8>) -> Option<(LevelState, Seq<u8>)> {
    if d.len() < 8 {
        None
    } else {
        let ls = legacy_level_state(d);
        let e = encode_level_state(ls);
        if e.len() > d.len() {
            None
        } else {
            Some((ls, e + d.skip(e.len() as int)))
        }
    }
}

/// The record and the stored bytes after normalisation: a record in the
/// current layout is taken as it stands; any other is migrated.
pub open spec fn normalized(d: Seq<u8>) -> Option<(LevelState, Seq<u8>)> {
    match parse_level_state(d) {
        Some(ls) => Some((ls, d)),
        None => migrated(d),
    }
}

// ---------------------------------------------------------------------------
// Lemmas
// ---------------------------------------------------------------------------

pub proof fn lemma_i64_bits_round_trip(v: i64)
    ensures
        i64_of_bits(i64_bits(v)) == v,
{
}

pub proof fn lemma_u64_bytes(x: u64)
    ensures
        spec_u64_to_le_bytes(x).len() == 8,
        spec_u64_from_le_bytes(spec_u64_to_le_bytes(x)) == x,
{
    vstd::bytes::lemma_auto_spec_u64_to_from_le_bytes();
}

pub proof fn lemma_encoded_len(ls: LevelState)
    ensures
        fixed_field_bytes(ls).len() == 90,
        option_key_bytes(ls.head_page).len() == if ls.head_page is Some { 33int } else { 1int },
        option_key_bytes(ls.tail_page).len() == if ls.tail_page is Some { 33int } else { 1int },
        100 <= encode_level_state(ls).len() <= 8 + LEVEL_STATE_SIZE,
{
    lemma_u64_bytes(i64_bits(ls.activated_at));
    lemma_u64_bytes(ls.cycles);
    lemma_u64_bytes(ls.slots_filled);
    assert(LEVEL_STATE_DISCRIMINATOR@.len() == 8);
    assert(ls.player@.len() == 32);
    assert(ls.authority@.len() == 32);
    if let Some(k) = ls.head_page {
        assert(k@.len() == 32);
    }
    if let Some(k) = ls.tail_page {
        assert(k@.len() == 32);
    }
}

/// The fixed fields of an encoded record read back as written.
proof fn lemma_fixed_fields_read_back(ls: LevelState, tag: Seq<u8>, rest: Seq<u8>)
    requires
        tag.len() == 8,
    ensures
        ({
            let d = tag + fixed_field_bytes(ls) + rest;
            &&& d.len() == 98 + rest.len()
            &&& d.subrange(0, 8) == tag
            &&& d.subrange(98, d.len() as int) == rest
            &&& fixed_fields(d) == LevelState { head_page: None, tail_page: None, ..ls }
            &&& clamped_key(d, 8) == (ls.player, 40int)
            &&& clamped_key(d, 40) == (ls.authority, 72int)
            &&& clamped_u8(d, 72) == (ls.level, 73int)
            &&& clamped_u8(d, 73) == (ls.bump, 74int)
            &&& clamped_i64(d, 74) == (ls.activated_at, 82int)
            &&& clamped_u64(d, 82) == (ls.cycles, 90int)
            &&& clamped_u64(d, 90) == (ls.slots_filled, 98int)
        }),
{
    let d = tag + fixed_field_bytes(ls) + rest;
    lemma_encoded_len(ls);
    lemma_u64_bytes(i64_bits(ls.activated_at));
    lemma_u64_bytes(ls.cycles);
    lemma_u64_bytes(ls.slots_filled);
    assert(d.subrange(0, 8) =~= tag);
    assert(d.subrange(98, d.len() as int) =~= rest);
    assert(d.subrange(8, 40) =~= ls.player@);
    assert(d.subrange(40, 72) =~= ls.authority@);
    assert(d.subrange(74, 82) =~= spec_u64_to_le_bytes(i64_bits(ls.activated_at)));
    assert(d.subrange(82, 90) =~= spec_u64_to_le_bytes(ls.cycles));
    assert(d.subrange(90, 98) =~= spec_u64_to_le_bytes(ls.slots_filled));
    assert(d[72] == ls.level);
    assert(d[73] == ls.bump);
    lemma_key_round_trip(ls.player);
    lemma_key_round_trip(ls.authority);
    lemma_i64_bits_round_trip(ls.activated_at);
}

/// An optional address reads back as written, whatever follows it.
proof fn lemma_option_key_read_back(k: Option<Key>, pre: Seq<u8>, rest: Seq<u8>)
    ensures
        ({
            let d = pre + option_key_bytes(k) + rest;
            let next: int = (pre.len() + option_key_bytes(k).len()) as int;
            &&& parse_option_key(d, pre.len() as int) == Some((k, next))
            &&& clamped_option_key(d, pre.len() as int) == (k, next)
            &&& d.subrange(next, d.len() as int) == rest
        }),
{
    let d = pre + option_key_bytes(k) + rest;
    let next: int = (pre.len() + option_key_bytes(k).len()) as int;
    assert(d.subrange(next, d.len() as int) =~= rest);
    match k {
        None => {
            assert(d[pre.len() as int] == 0);
        },
        Some(key) => {
            assert(d[pre.len() as int] == 1);
            assert(d.subrange(pre.len() as int + 1, pre.len() as int + 33) =~= key@);
            lemma_key_round_trip(key);
        },
    }
}

/// Where the two optional fields of an encoded record sit.
proof fn lemma_encoded_layout(ls: LevelState, rest: Seq<u8>)
    ensures
        ({
            let d = encode_level_state(ls) + rest;
            let hn = 98 + option_key_bytes(ls.head_page).len();
            let tn = hn + option_key_bytes(ls.tail_page).len();
            &&& d.len() >= 98
            &&& d.subrange(0, 8) == LEVEL_STATE_DISCRIMINATOR@
            &&& fixed_fields(d) == LevelState { head_page: None, tail_page: None, ..ls }
            &&& clamped_key(d, 8) == (ls.player, 40int)
            &&& clamped_key(d, 40) == (ls.authority, 72int)
            &&& clamped_u8(d, 72) == (ls.level, 73int)
            &&& clamped_u8(d, 73) == (ls.bump, 74int)
            &&& clamped_i64(d, 74) == (ls.activated_at, 82int)
            &&& clamped_u64(d, 82) == (ls.cycles, 90int)
            &&& clamped_u64(d, 90) == (ls.slots_filled, 98int)
            &&& parse_option_key(d, 98) == Some((ls.head_page, hn as int))
            &&& clamped_option_key(d, 98) == (ls.head_page, hn as int)
            &&& parse_option_key(d, hn as int) == Some((ls.tail_page, tn as int))
            &&& clamped_option_key(d, hn as int) == (ls.tail_page, tn as int)
        }),
{
    let tag = LEVEL_STATE_DISCRIMINATOR@;
    let f = fixed_field_bytes(ls);
    let h = option_key_bytes(ls.head_page);
    let t = option_key_bytes(ls.tail_page);
    let d = encode_level_state(ls) + rest;
    lemma_encoded_len(ls);
    assert(d =~= tag + f + (h + t + rest));
    lemma_fixed_fields_read_back(ls, tag, h + t + rest);
    assert(d =~= (tag + f) + h + (t + rest));
    lemma_option_key_read_back(ls.head_page, tag + f, t + rest);
    assert(d =~= (tag + f + h) + t + rest);
    lemma_option_key_read_back(ls.tail_page, tag + f + h, rest);
}

/// A record in the current layout reads back as written, whatever bytes
/// follow it.
pub proof fn lemma_level_state_round_trip(ls: LevelState, rest: Seq<u8>)
    ensures
        parse_level_state(encode_level_state(ls) + rest) == Some(ls),
        legacy_level_state(encode_level_state(ls) + rest) == ls,
{
    lemma_encoded_layout(ls, rest);
}

/// Normalising bytes that are already normalised changes nothing: the same
/// record comes back and the stored bytes stay identical.
pub proof fn lemma_normalize_idempotent(d: Seq<u8>)
    ensures
        normalized(d) matches Some((ls, nd)) ==> normalized(nd) == Some((ls, nd)),
{
    if parse_level_state(d) is None {
        if let Some((ls, nd)) = migrated(d) {
            let e = encode_level_state(ls);
            lemma_level_state_round_trip(ls, d.skip(e.len() as int));
        }
    }
}

/// A record in the oldest layout (the fixed fields after any 8-byte tag,
/// in zero-filled storage with room for the current layout) normalises to
/// the record built directly in the current layout from the same field
/// values, stored in the current layout.
pub proof fn lemma_oldest_layout_normalizes(ls: LevelState, tag: Seq<u8>, rest: Seq<u8>)
    requires
        tag.len() == 8,
        ls.head_page is None,
        ls.tail_page is None,
        rest.len() >= 2,
        forall|i: int| 0 <= i < rest.len() ==> rest[i] == 0u8,
    ensures
        normalized(tag + fixed_field_bytes(ls) + rest) == Some((ls, encode_level_state(ls) + rest.skip(2))),
{
    let d = tag + fixed_field_bytes(ls) + rest;
    lemma_encoded_len(ls);
    lemma_fixed_fields_read_back(ls, tag, rest);
    let e = encode_level_state(ls);
    assert(e =~= LEVEL_STATE_DISCRIMINATOR@ + fixed_field_bytes(ls) + seq![0u8, 0u8]);
    assert(d[98] == 0u8);
    assert(d[99] == 0u8);
    assert(clamped_option_key(d, 98) == (None::<Key>, 99int));
    assert(clamped_option_key(d, 99) == (None::<Key>, 100int));
    assert(legacy_level_state(d) == ls);
    if tag == LEVEL_STATE_DISCRIMINATOR@ {
        assert(parse_option_key(d, 98) == Some((None::<Key>, 99int)));
        assert(parse_option_key(d, 99) == Some((None::<Key>, 100int)));
        assert(parse_level_state(d) == Some(ls));
        assert(d =~= e + rest.skip(2));
    } else {
        assert(d.skip(100) =~= rest.skip(2));
    }
}

} // verus!

verus! {

// ---------------------------------------------------------------------------
// Reading and writing records
// ---------------------------------------------------------------------------

fn append_bytes(out: &mut Vec<u8>, b: &[u8])
    ensures
        final(out)@ == old(out)@ + b@,
{
    let mut i: usize = 0;
    while i < b.len()
        invariant
            0 <= i <= b@.len(),
            out@ == old(out)@ + b@.subrange(0, i as int),
        decreases b@.len() - i,
    {
        out.push(b[i]);
        i = i + 1;
        assert(out@ =~= old(out)@ + b@.subrange(0, i as int));
    }
    assert(b@.subrange(0, b@.len() as int) =~= b@);
}

fn append_option_key(out: &mut Vec<u8>, k: &Option<Key>)
    ensures
        final(out)@ == old(out)@ + option_key_bytes(*k),
{
    match k {
        None => {
            out.push(0u8);
            assert(out@ =~= old(out)@ + seq![0u8]);
        },
        Some(key) => {
            out.push(1u8);
            append_bytes(out, &key.bytes);
            assert(out@ =~= old(out)@ + (seq![1u8] + key@));
        },
    }
}

pub fn i64_to_bits(v: i64) -> (r: u64)
    ensures
        r == i64_bits(v),
{
    if v >= 0 {
        v as u64
    } else {
        ((v + i64::MAX) + 1) as u64 + 0x8000_0000_0000_0000u64
    }
}

fn i64_from_bits(u: u64) -> (r: i64)
    ensures
        r == i64_of_bits(u),
{
    if u < 0x8000_0000_0000_0000u64 {
        u as i64
    } else {
        ((u - 0x8000_0000_0000_0000u64) as i64) - i64::MAX - 1
    }
}

/// The stored form of a record in the current layout.
pub fn serialize_level_state(ls: &LevelState) -> (r: Vec<u8>)
    ensures
        r@ == encode_level_state(*ls),
{
    let mut out: Vec<u8> = Vec::new();
    append_bytes(&mut out, &LEVEL_STATE_DISCRIMINATOR);
    append_bytes(&mut out, &ls.player.bytes);
    append_bytes(&mut out, &ls.authority.bytes);
    out.push(ls.level);
    out.push(ls.bump);
    let b1 = u64_to_le_bytes(i64_to_bits(ls.activated_at));
    append_bytes(&mut out, b1.as_slice());
    let b2 = u64_to_le_bytes(ls.cycles);
    append_bytes(&mut out, b2.as_slice());
    let b3 = u64_to_le_bytes(ls.slots_filled);
    append_bytes(&mut out, b3.as_slice());
    append_option_key(&mut out, &ls.head_page);
    append_option_key(&mut out, &ls.tail_page);
    assert(out@ =~= encode_level_state(*ls));
    out
}

fn read_u64_at(data: &Vec<u8>, at: usize) -> (r: u64)
    requires
        at + 8 <= data@.len(),
    ensures
        r == spec_u64_from_le_bytes(data@.subrange(at as int, at + 8)),
{
    let n = data.len();
    let mut buf: Vec<u8> = Vec::with_capacity(8);
    let mut i: usize = 0;
    while i < 8
        invariant
            0 <= i <= 8,
            at + 8 <= data@.len(),
            n == data@.len(),
            buf@ == data@.subrange(at as int, at + i),
        decreases 8 - i,
    {
        buf.push(data[at + i]);
        i = i + 1;
        assert(buf@ =~= data@.subrange(at as int, at + i));
    }
    u64_from_le_bytes(buf.as_slice())
}

fn parse_option_key_at(data: &Vec<u8>, at: usize) -> (r: Option<(Option<Key>, usize)>)
    requires
        at <= data@.len(),
    ensures
        r is Some <==> parse_option_key(data@, at as int) is Some,
        r matches Some((k, next)) ==> parse_option_key(data@, at as int) == Some((k, next as int)),
{
    let n = data.len();
    if at >= n {
        None
    } else if data[at] == 0 {
        Some((None, at + 1))
    } else if data[at] == 1 && n - at >= 33 {
        let k = Key::read_from(data, at + 1);
        Some((Some(k), at + 33))
    } else {
        None
    }
}

fn has_level_state_tag(data: &Vec<u8>) -> (r: bool)
    requires
        data@.len() >= 8,
    ensures
        r == (data@.subrange(0, 8) == LEVEL_STATE_DISCRIMINATOR@),
{
    let mut i: usize = 0;
    while i < 8
        invariant
            0 <= i <= 8,
            data@.len() >= 8,
            forall|j: int| 0 <= j < i ==> data@[j] == LEVEL_STATE_DISCRIMINATOR@[j],
        decreases 8 - i,
    {
        if data[i] != LEVEL_STATE_DISCRIMINATOR[i] {
            assert(data@.subrange(0, 8)[i as int] != LEVEL_STATE_DISCRIMINATOR@[i as int]);
            return false;
        }
        i = i + 1;
    }
    assert(data@.subrange(0, 8) =~= LEVEL_STATE_DISCRIMINATOR@);
    true
}

/// Reads a record in the current layout; any other content is refused.
pub fn try_deserialize_level_state(data: &Vec<u8>) -> (r: Result<LevelState, CustomError>)
    ensures
        r == match parse_level_state(data@) {
            Some(ls) => Ok::<LevelState, CustomError>(ls),
            None => Err(CustomError::AccountCastError),
        },
{
    let n = data.len();
    if n < LEVEL_STATE_FIXED_LEN || !has_level_state_tag(data) {
        return Err(CustomError::AccountCastError);
    }
    let player = Key::read_from(data, 8);
    let authority = Key::read_from(data, 40);
    let level = data[72];
    let bump = data[73];
    let activated_at = i64_from_bits(read_u64_at(data, 74));
    let cycles = read_u64_at(data, 82);
    let slots_filled = read_u64_at(data, 90);
    let (head_page, at) = match parse_option_key_at(data, 98) {
        Some(v) => v,
        None => {
            return Err(CustomError::AccountCastError);
        },
    };
    let (tail_page, _) = match parse_option_key_at(data, at) {
        Some(v) => v,
        None => {
            return Err(CustomError::AccountCastError);
        },
    };
    Ok(LevelState { player, authority, level, bump, activated_at, cycles, slots_filled, head_page, tail_page })
}

fn read_u8_safe(data: &Vec<u8>, idx: &mut usize) -> (r: u8)
    requires
        *old(idx) <= data@.len(),
    ensures
        (r, *final(idx) as int) == clamped_u8(data@, *old(idx) as int),
        *final(idx) <= data@.len(),
{
    if data.len() - *idx >= 1 {
        let v = data[*idx];
        *idx = *idx + 1;
        v
    } else {
        0
    }
}

fn read_u64_safe(data: &Vec<u8>, idx: &mut usize) -> (r: u64)
    requires
        *old(idx) <= data@.len(),
    ensures
        (r, *final(idx) as int) == clamped_u64(data@, *old(idx) as int),
        *final(idx) <= data@.len(),
{
    if data.len() - *idx >= 8 {
        let v = read_u64_at(data, *idx);
        *idx = *idx + 8;
        v
    } else {
        0
    }
}

fn read_i64_safe(data: &Vec<u8>, idx: &mut usize) -> (r: i64)
    requires
        *old(idx) <= data@.len(),
    ensures
        (r, *final(idx) as int) == clamped_i64(data@, *old(idx) as int),
        *final(idx) <= data@.len(),
{
    let u = read_u64_safe(data, idx);
    i64_from_bits(u)
}

fn read_key_safe(data: &Vec<u8>, idx: &mut usize) -> (r: Key)
    requires
        *old(idx) <= data@.len(),
    ensures
        (r, *final(idx) as int) == clamped_key(data@, *old(idx) as int),
        *final(idx) <= data@.len(),
{
    if data.len() - *idx >= 32 {
        let k = Key::read_from(data, *idx);
        *idx = *idx + 32;
        k
    } else {
        Key::zero()
    }
}

fn read_option_key_safe(data: &Vec<u8>, idx: &mut usize) -> (r: Option<Key>)
    requires
        *old(idx) <= data@.len(),
    ensures
        (r, *final(idx) as int) == clamped_option_key(data@, *old(idx) as int),
        *final(idx) <= data@.len(),
{
    if *idx >= data.len() {
        return None;
    }
    let tag = data[*idx];
    *idx = *idx + 1;
    if tag == 0 {
        return None;
    }
    if data.len() - *idx >= 32 {
        let k = Key::read_from(data, *idx);
        *idx = *idx + 32;
        Some(k)
    } else {
        None
    }
}

/// Rebuilds a record from bytes in any layout with the positional reader.
pub fn read_legacy_level_state(data: &Vec<u8>) -> (r: LevelState)
    requires
        data@.len() >= 8,
    ensures
        r == legacy_level_state(data@),
{
    let mut idx: usize = 8;
    let player = read_key_safe(data, &mut idx);
    let authority = read_key_safe(data, &mut idx);
    let level = read_u8_safe(data, &mut idx);
    let bump = read_u8_safe(data, &mut idx);
    let activated_at = read_i64_safe(data, &mut idx);
    let cycles = read_u64_safe(data, &mut idx);
    let slots_filled = read_u64_safe(data, &mut idx);
    let head_page = read_option_key_safe(data, &mut idx);
    let tail_page = read_option_key_safe(data, &mut idx);
    LevelState { player, authority, level, bump, activated_at, cycles, slots_filled, head_page, tail_page }
}

/// Overwrites the front of `data` with `bytes`, keeping its length.
pub(crate) fn overwrite_prefix(data: &mut Vec<u8>, bytes: &Vec<u8>)
    requires
        bytes@.len() <= old(data)@.len(),
    ensures
        final(data)@ == bytes@ + old(data)@.skip(bytes@.len() as int),
{
    let mut i: usize = 0;
    while i < bytes.len()
        invariant
            0 <= i <= bytes@.len(),
            bytes@.len() <= data@.len(),
            data@.len() == old(data)@.len(),
            data@ == bytes@.subrange(0, i as int) + old(data)@.skip(i as int),
        decreases bytes@.len() - i,
    {
        data.set(i, bytes[i]);
        i = i + 1;
        assert(data@ =~= bytes@.subrange(0, i as int) + old(data)@.skip(i as int));
    }
    assert(bytes@.subrange(0, bytes@.len() as int) =~= bytes@);
}

/// Rebuilds the record in `data` with the positional reader and stores it
/// back in the current layout, in place.
pub fn migrate_legacy_level_state(data: &mut Vec<u8>) -> (r: Result<LevelState, CustomError>)
    ensures
        match migrated(old(data)@) {
            Some((ls, nd)) => r == Ok::<LevelState, CustomError>(ls) && final(data)@ == nd,
            None => r == Err::<LevelState, CustomError>(CustomError::AccountCastError)
                && final(data)@ == old(data)@,
        },
{
    if data.len() < 8 {
        return Err(CustomError::AccountCastError);
    }
    let owner_ls = read_legacy_level_state(data);
    let bytes = serialize_level_state(&owner_ls);
    if bytes.len() > data.len() {
        return Err(CustomError::AccountCastError);
    }
    overwrite_prefix(data, &bytes);
    proof {
        lemma_level_state_round_trip(owner_ls, old(data)@.skip(bytes@.len() as int));
    }
    try_deserialize_level_state(data)
}

/// Reads the record in `data`, migrating it in place first when it is not
/// stored in the current layout.
pub fn load_or_migrate_level_state(data: &mut Vec<u8>) -> (r: Result<LevelState, CustomError>)
    ensures
        match normalized(old(data)@) {
            Some((ls, nd)) => r == Ok::<LevelState, CustomError>(ls) && final(data)@ == nd,
            None => r == Err::<LevelState, CustomError>(CustomError::AccountCastError)
                && final(data)@ == old(data)@,
        },
{
    let current = try_deserialize_level_state(data);
    if current.is_ok() {
        return current;
    }
    migrate_legacy_level_state(data)
}

} // verus!

verus! {

/// The stored bytes after writing `ls` over the front of `d`, or `None`
/// when the record does not fit.
pub open spec fn stored_over(d: Seq<u8>, ls: LevelState) -> Option<Seq<u8>> {
    let e = encode_level_state(ls);
    if e.len() > d.len() {
        None
    } else {
        Some(e + d.skip(e.len() as int))
    }
}

/// Writes `ls` in the current layout over the front of `data`.
pub fn store_level_state(data: &mut Vec<u8>, ls: &LevelState) -> (r: Result<(), CustomError>)
    ensures
        match stored_over(old(data)@, *ls) {
            Some(nd) => r is Ok && final(data)@ == nd,
            None => r == Err::<(), CustomError>(CustomError::AccountCastError) && final(data)@ == old(data)@,
        },
{
    let bytes = serialize_level_state(ls);
    if bytes.len() > data.len() {
        return Err(CustomError::AccountCastError);
    }
    overwrite_prefix(data, &bytes);
    Ok(())
}

} // verus!
