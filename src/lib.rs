//! The queue engine, payout split, replay guard, record migration and
//! activation state machine of a per-level participatory payout scheme.
//!
//! Each level keeps a first-in first-out queue of participants spread over
//! fixed-capacity pages. A participant who activates a level pays its fixed
//! price: the participant at the head of the queue (the owner) receives a
//! share, three uplines and the treasury the rest; after three slots (or
//! the configured number, if larger) the owner recycles to the tail.
//!
//! Every operation here is a function from the records handed over to the
//! records to write, the payments to make and the notifications to log; it
//! refuses a request before anything changes.

pub mod key;
pub mod error;
pub mod config;
pub mod payout;
pub mod address;
pub mod level_state;
pub mod events;
pub mod queue;
pub mod level_queue;
pub mod accounts;
pub mod referral;
pub mod player;
pub mod activation;
