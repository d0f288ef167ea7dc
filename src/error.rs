use vstd::prelude::*;

verus! {

/// Why an operation on the pool was rejected. A rejected operation leaves the
/// pool exactly as it was.
#[derive(Debug, Clone, Copy, PartialEq, Eq, Structural)]
pub enum PoolError {
    /// The caller is not the pool's owner.
    Unauthorized,
    /// The pool slot already holds a pool.
    AlreadyInitialized,
    /// A zero amount, or one that would overflow a counter.
    InvalidAmount,
    /// The participant has no active stake.
    NotFound,
    /// The participant already has an active stake.
    DuplicatePosition,
    /// Not enough time has passed to reach the first reward tier.
    NoTierReached,
    /// The reached tier has already been paid out.
    AlreadyClaimed,
    /// The reward reserve cannot cover the reward.
    InsufficientReserve,
    /// The reward schedule is empty, unordered or misaligned.
    InvalidScheduleConfig,
    /// The token transfer did not go through.
    TransferFailed,
    /// A payload has the wrong shape.
    MalformedInput,
    /// An empty instruction or an unknown opcode.
    InvalidCommand,
}

} // verus!
