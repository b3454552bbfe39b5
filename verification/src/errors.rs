//! The failure taxonomy shared by quoting and by the pool operations.

use vstd::prelude::*;

verus! {

/// Every way a quote or an operation can fail. All failures are terminal
/// for the invocation that raised them and leave the pool untouched.
#[derive(Clone, Copy, Debug, PartialEq, Eq, Structural)]
pub enum AmmError {
    /// A zero or otherwise nonsensical quantity was supplied.
    InvalidAmount,
    /// The pool's reserves or share supply are empty.
    NoLiquidityInPool,
    /// The pool is administratively suspended.
    PoolLocked,
    /// The computed result violates the caller's declared bound.
    SlippageExceeded,
    /// More shares would be burned than are outstanding.
    InsufficientShares,
    /// An intermediate value would exceed the representable range.
    Overflow,
}

} // verus!
