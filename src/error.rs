use vstd::prelude::*;

verus! {

/// Every way in which an operation of the program is refused.
#[derive(Clone, Copy, Debug, PartialEq, Eq, Structural)]
pub enum CustomError {
    InvalidDistribution,
    Unauthorized,
    InvalidLevel,
    InvalidPrice,
    AlreadyActivated,
    SlotsAlreadyFull,
    SlotsNotEnoughToRecycle,
    QueueIsEmpty,
    LevelNotActivated,
    Overflow,
    QueuePageKeyMismatch,
    AccountCastError,
    QueuePageFull,
    AlreadyInQueue,
    QueueNextPageAlreadyExists,
    MinEntryDelay,
    RecipientMustBeSystemWallet,
    RolloverNeedsSecondNewPage,
    /// A supplied account is not the one that the operation expects.
    KeyMismatch,
    /// A record that the operation must create exists already.
    AccountAlreadyInUse,
    /// No program address could be derived from the seeds.
    AddressDerivationFailed,
}

} // verus!
