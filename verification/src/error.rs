//! The error taxonomy of the pool.

use vstd::prelude::*;

verus! {

/// Every failure a pool operation can report. Each failure aborts the
/// operation with no state change, so a caller can distinguish bad input
/// from arithmetic limits from policy rejections.
#[derive(Clone, Copy, Debug, PartialEq, Eq, Structural)]
pub enum AmmError {
    /// A value-moving operation was attempted while the pool is locked.
    PoolLocked,
    /// A required quantity is zero or otherwise structurally invalid.
    InvalidAmount,
    /// A computed amount violates the caller's max/min bound.
    SlippageExceeded,
    /// An arithmetic step exceeded the representable range, or a divisor
    /// was zero.
    Overflow,
    /// An arithmetic step went negative.
    Underflow,
    /// A lock or unlock was attempted by a non-authorized principal.
    InvalidAuthority,
    /// A ratio computation hit a zero denominator outside the designated
    /// bootstrap path.
    InvalidPrecision,
    /// A swap would drain a reserve to zero or below.
    InsufficientBalance,
    /// An operation would strand one reserve at zero while the other
    /// remains positive.
    ZeroBalance,
}

} // verus!
