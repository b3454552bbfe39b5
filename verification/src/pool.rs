//! The mutable record describing one exchange pair.

use vstd::prelude::*;

verus! {

/// One pool: the two reserves as tracked by its vault balances, the
/// outstanding ownership-share supply, the fee rate in basis points, and
/// an administrative lock flag. Authority over the vaults is the custody
/// layer's concern and is not part of this record.
#[derive(Clone, Copy, Debug, PartialEq, Eq, Structural)]
pub struct PoolState {
    pub reserve_x: u64,
    pub reserve_y: u64,
    pub share_supply: u64,
    pub fee_rate_bps: u16,
    pub locked: bool,
}

impl PoolState {
    /// The pool's invariant: the fee rate is a fraction of the whole, and
    /// the share supply is zero exactly when both reserves are.
    pub open spec fn wf(self) -> bool {
        &&& self.fee_rate_bps <= 10000
        &&& (self.share_supply == 0 <==> (self.reserve_x == 0 && self.reserve_y == 0))
    }

    /// The reserve of the asset the caller supplies, by direction flag.
    pub open spec fn spec_reserve_in(self, in_is_x: bool) -> int {
        if in_is_x {
            self.reserve_x as int
        } else {
            self.reserve_y as int
        }
    }

    /// The reserve of the asset the caller receives, by direction flag.
    pub open spec fn spec_reserve_out(self, in_is_x: bool) -> int {
        if in_is_x {
            self.reserve_y as int
        } else {
            self.reserve_x as int
        }
    }

    /// Build a pool record, accepting exactly the states that satisfy the
    /// pool invariant.
    pub fn new(
        reserve_x: u64,
        reserve_y: u64,
        share_supply: u64,
        fee_rate_bps: u16,
        locked: bool,
    ) -> (r: Option<PoolState>)
        ensures
            match r {
                Some(p) => {
                    &&& p.wf()
                    &&& p == (PoolState { reserve_x, reserve_y, share_supply, fee_rate_bps, locked })
                },
                None => !(PoolState { reserve_x, reserve_y, share_supply, fee_rate_bps, locked }).wf(),
            },
    {
        if fee_rate_bps > 10000 {
            return None;
        }
        if (share_supply == 0) != (reserve_x == 0 && reserve_y == 0) {
            return None;
        }
        Some(PoolState { reserve_x, reserve_y, share_supply, fee_rate_bps, locked })
    }

    /// Run-time check of the pool invariant, for callers outside the
    /// verified boundary.
    pub fn is_well_formed(&self) -> (b: bool)
        ensures
            b == self.wf(),
    {
        self.fee_rate_bps <= 10000 && ((self.share_supply == 0) == (self.reserve_x == 0
            && self.reserve_y == 0))
    }
}

} // verus!
