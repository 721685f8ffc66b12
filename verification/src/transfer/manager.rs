//! Error taxonomy of the transfer manager, and the timeout predicate used by
//! the housekeeping sweep.

use vstd::prelude::*;

use crate::types::{Duration, Timestamp};
use crate::RxError;

verus! {

/// Errors from appending a frame onto an existing transfer.
#[derive(Copy, Clone, Debug, PartialEq, Eq, Structural)]
pub enum UpdateTransferError {
    /// No space left to create a new transfer instance
    NoSpace,
    /// The transfer does not exist
    DoesNotExist,
    /// Transfer timed out since receiving the previous frame
    TimedOut,
    /// Error in handling reception of an existing transfer
    RxError(RxError),
}

/// Errors from creating a transfer.
#[derive(Copy, Clone, Debug, PartialEq, Eq, Structural)]
pub enum CreateTransferError {
    /// There is no more memory to create the new transfer
    NoSpace,
    /// A transfer with the same metadata already exists
    AlreadyExists,
    /// Error in handling reception of the transfer's first frame
    RxError(RxError),
}

/// Errors from redeeming a transfer token.
#[derive(Copy, Clone, Debug, PartialEq, Eq, Structural)]
pub enum TokenAccessError {
    /// Token does not reference an existing transfer
    InvalidToken,
    /// Transfer timed out
    TransferTimeout,
}

/// Distinguishes a failure of the manager itself from a failure reported by
/// a user callback that participated in the operation.
#[derive(Copy, Clone, Debug)]
pub enum InternalOrUserError<I, U> {
    InternalError(I),
    UserError(U),
}

/// Whether a transfer stamped `then` has been idle longer than `timeout` by
/// the time `now` is reached. `None` (no stamp) never expires, and a stamp
/// that lies in the future never expires either.
pub open spec fn timestamp_expired_spec(
    timeout: Duration,
    now: Timestamp,
    then: Option<Timestamp>,
) -> bool {
    match then {
        Some(t) => t <= now && now - t > timeout,
        None => false,
    }
}

/// Decides expiry for the housekeeping sweep by monotonic comparison of
/// tick counts.
pub fn timestamp_expired(timeout: Duration, now: Timestamp, then: Option<Timestamp>) -> (r: bool)
    ensures
        r == timestamp_expired_spec(timeout, now, then),
{
    match then {
        Some(t) => t <= now && now - t > timeout,
        None => false,
    }
}

} // verus!
