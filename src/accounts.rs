use vstd::prelude::*;

use crate::identity::Pubkey;

verus! {

/// Pool-wide totals: all collateral held and all debt handed out.
#[derive(Clone, Copy, Debug, PartialEq, Eq, Structural)]
pub struct VaultAccount {
    pub total_collateral: u64,
    pub total_borrowed: u64,
}

/// One participant's position: collateral deposited and debt owed.
#[derive(Clone, Copy, Debug)]
pub struct UserStats {
    pub authority: Pubkey,
    pub collateral_amount: u64,
    pub borrowed_amount: u64,
}

/// Why an operation was refused. A refused operation changes nothing.
#[derive(Clone, Copy, Debug, PartialEq, Eq, Structural)]
pub enum ErrorCode {
    /// The ledger already exists.
    AlreadyInitialized,
    /// The ledger, or the caller's position, does not exist yet.
    AccountNotInitialized,
    /// The token program refused a transfer.
    TransferFailed,
    /// The loan would exceed half of the collateral's value.
    InsufficientCollateral,
    /// A counter would leave the range of `u64`.
    ArithmeticOverflow,
    /// The caller is not the owner of the position.
    Unauthorized,
}

impl VaultAccount {
    pub open spec fn spec_empty() -> VaultAccount {
        VaultAccount { total_collateral: 0, total_borrowed: 0 }
    }

    /// A ledger with both totals at zero.
    pub fn empty() -> (r: VaultAccount)
        ensures
            r == VaultAccount::spec_empty(),
    {
        VaultAccount { total_collateral: 0, total_borrowed: 0 }
    }
}

impl UserStats {
    pub open spec fn spec_fresh(owner: Pubkey) -> UserStats {
        UserStats { authority: owner, collateral_amount: 0, borrowed_amount: 0 }
    }

    /// The zeroed position that a first deposit creates for `owner`.
    pub fn fresh(owner: Pubkey) -> (r: UserStats)
        ensures
            r == UserStats::spec_fresh(owner),
    {
        UserStats { authority: owner, collateral_amount: 0, borrowed_amount: 0 }
    }

    /// The position with `amount` more collateral.
    pub open spec fn with_collateral_added(self, amount: u64) -> UserStats {
        UserStats {
            authority: self.authority,
            collateral_amount: (self.collateral_amount + amount) as u64,
            borrowed_amount: self.borrowed_amount,
        }
    }

    /// The position with `amount` more debt.
    pub open spec fn with_debt_added(self, amount: u64) -> UserStats {
        UserStats {
            authority: self.authority,
            collateral_amount: self.collateral_amount,
            borrowed_amount: (self.borrowed_amount + amount) as u64,
        }
    }

    /// The loan-to-value ceiling holds for this position at `price`.
    pub open spec fn within_limit(self, price: u64) -> bool {
        2 * self.borrowed_amount <= self.collateral_amount * price
    }
}

/// The most that may be owed against `collateral` at `price`: half its value, rounded down.
pub open spec fn max_loan_value(collateral: u64, price: u64) -> int {
    (collateral * price) / 2
}

} // verus!
