use vstd::prelude::*;
use crate::key::Key;

verus! {

#[derive(Clone, Copy, Debug, PartialEq, Eq)]
pub struct ConfigInitialized {
    pub admin: Key,
    pub treasury: Key,
    pub timestamp: i64,
}

#[derive(Clone, Copy, Debug, PartialEq, Eq)]
pub struct PlayerCreated {
    pub authority: Key,
    pub timestamp: i64,
}

#[derive(Clone, Copy, Debug, PartialEq, Eq)]
pub struct LevelActivated {
    pub owner: Key,
    pub level: u8,
    pub lamports: u64,
    pub timestamp: i64,
}

#[derive(Clone, Copy, Debug, PartialEq, Eq)]
pub struct LevelRecycled {
    pub owner: Key,
    pub level: u8,
    pub cycles: u64,
    pub lamports: u64,
    pub timestamp: i64,
}

#[derive(Clone, Copy, Debug, PartialEq, Eq)]
pub struct SlotsFilledN {
    pub owner: Key,
    pub level: u8,
    pub cycles: u64,
    pub filled: u8,
}

#[derive(Clone, Copy, Debug, PartialEq, Eq)]
pub struct DequeuedOwner {
    pub owner_player: Key,
    pub level: u8,
    pub page_index: u32,
}

#[derive(Clone, Copy, Debug, PartialEq, Eq)]
pub struct Enqueued {
    pub player: Key,
    pub level: u8,
    pub page_index: u32,
    pub position_in_page: u32,
}

#[derive(Clone, Copy, Debug, PartialEq, Eq)]
pub struct QueuePageCreated {
    pub level: u8,
    pub pool: Key,
    pub page_index: u32,
    pub page: Key,
}

/// A notification for observers; nothing in the program reads it back.
#[derive(Clone, Copy, Debug, PartialEq, Eq)]
pub enum GameEvent {
    ConfigInitialized(ConfigInitialized),
    PlayerCreated(PlayerCreated),
    LevelActivated(LevelActivated),
    LevelRecycled(LevelRecycled),
    SlotsFilledN(SlotsFilledN),
    DequeuedOwner(DequeuedOwner),
    Enqueued(Enqueued),
    QueuePageCreated(QueuePageCreated),
}

} // verus!
