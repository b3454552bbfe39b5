//! A constant-product automated market maker core.
//!
//! The library verifies the exchange math of a two-asset liquidity pool:
//! swap quoting against the constant-product invariant, fee extraction,
//! proportional withdrawal of both reserves against burned ownership
//! shares, and the two operations that orchestrate them over a pool
//! record. Custody (the actual movement of balances between accounts)
//! is left to the caller: each operation validates, quotes, and returns
//! the exact movements to issue, and never mutates the pool on failure.

pub mod curve;
pub mod errors;
pub mod laws;
pub mod ops;
pub mod pool;
