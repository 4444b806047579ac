use vstd::prelude::*;

use crate::accounts::{max_loan_value, ErrorCode, UserStats, VaultAccount};
use crate::authority::{PoolAuthorityProof, Transfer};
use crate::identity::Pubkey;

verus! {

/// The accounts that setting up the ledger touches.
#[derive(Clone, Copy, Debug)]
pub struct Initialize {
    /// The ledger, if it already exists.
    pub vault_account: Option<VaultAccount>,
    /// The bump with which the pool's holding account was derived.
    pub vault_token_bump: u8,
}

/// The accounts that a deposit touches.
#[derive(Clone, Copy, Debug)]
pub struct Deposit {
    pub vault_account: VaultAccount,
    /// The caller's position, if a deposit created it before.
    pub user_account: Option<UserStats>,
    /// The authenticated caller.
    pub user: Pubkey,
}

/// The accounts that a borrow touches.
#[derive(Clone, Copy, Debug)]
pub struct Borrow {
    pub vault_account: VaultAccount,
    /// The caller's position, if a deposit created it before.
    pub user_account: Option<UserStats>,
    /// The authenticated caller.
    pub user: Pubkey,
    /// The derivation proof that signs for the pool's holding account.
    pub pool_authority: PoolAuthorityProof,
}

/// The ledger and position after a deposit of `amount` by `user`, or why it is refused.
pub open spec fn deposit_outcome(
    ledger: VaultAccount,
    position: Option<UserStats>,
    user: Pubkey,
    amount: u64,
) -> Result<(VaultAccount, UserStats), ErrorCode> {
    let p = match position {
        Some(p) => p,
        None => UserStats::spec_fresh(user),
    };
    if p.authority@ != user@ {
        Err(ErrorCode::Unauthorized)
    } else if ledger.total_collateral + amount > u64::MAX || p.collateral_amount + amount
        > u64::MAX {
        Err(ErrorCode::ArithmeticOverflow)
    } else {
        Ok(
            (
                VaultAccount {
                    total_collateral: (ledger.total_collateral + amount) as u64,
                    total_borrowed: ledger.total_borrowed,
                },
                p.with_collateral_added(amount),
            ),
        )
    }
}

/// The ledger and position after `user` borrows `amount` at `price`, or why it is refused.
pub open spec fn borrow_outcome(
    ledger: VaultAccount,
    position: Option<UserStats>,
    user: Pubkey,
    amount: u64,
    price: u64,
) -> Result<(VaultAccount, UserStats), ErrorCode> {
    match position {
        None => Err(ErrorCode::AccountNotInitialized),
        Some(p) => if p.authority@ != user@ {
            Err(ErrorCode::Unauthorized)
        } else if p.borrowed_amount + amount > max_loan_value(p.collateral_amount, price) {
            Err(ErrorCode::InsufficientCollateral)
        } else if ledger.total_borrowed + amount > u64::MAX || p.borrowed_amount + amount
            > u64::MAX {
            Err(ErrorCode::ArithmeticOverflow)
        } else {
            Ok(
                (
                    VaultAccount {
                        total_collateral: ledger.total_collateral,
                        total_borrowed: (ledger.total_borrowed + amount) as u64,
                    },
                    p.with_debt_added(amount),
                ),
            )
        },
    }
}

/// Creates the ledger with both totals at zero and hands back the pool's
/// authority, bound to the holding account's bump. Refused when the ledger exists.
pub fn initialize(ctx: &mut Initialize) -> (r: Result<PoolAuthorityProof, ErrorCode>)
    ensures
        old(ctx).vault_account.is_some() ==> r == Err::<PoolAuthorityProof, ErrorCode>(
            ErrorCode::AlreadyInitialized,
        ) && *final(ctx) == *old(ctx),
        old(ctx).vault_account.is_none() ==> r == Ok::<PoolAuthorityProof, ErrorCode>(
            (PoolAuthorityProof { bump: old(ctx).vault_token_bump }),
        ) && final(ctx).vault_account == Some(VaultAccount::spec_empty())
            && final(ctx).vault_token_bump == old(ctx).vault_token_bump,
{
    if ctx.vault_account.is_some() {
        return Err(ErrorCode::AlreadyInitialized);
    }
    ctx.vault_account = Some(VaultAccount::empty());
    Ok(PoolAuthorityProof::new(ctx.vault_token_bump))
}

/// Books a deposit of `amount` by the caller: creates the caller's position if
/// it has none, adds `amount` to it and to the ledger's collateral, and asks for
/// the tokens to move from the caller into the pool.
pub fn deposit(ctx: &mut Deposit, amount: u64) -> (r: Result<Transfer, ErrorCode>)
    ensures
        match deposit_outcome(old(ctx).vault_account, old(ctx).user_account, old(ctx).user, amount) {
            Ok((ledger, position)) => {
                &&& r == Ok::<Transfer, ErrorCode>(
                    (Transfer::IntoPool { owner: old(ctx).user, amount }),
                )
                &&& final(ctx).vault_account == ledger
                &&& final(ctx).user_account == Some(position)
                &&& final(ctx).user == old(ctx).user
            },
            Err(e) => r == Err::<Transfer, ErrorCode>(e) && *final(ctx) == *old(ctx),
        },
{
    let p = match ctx.user_account {
        Some(p) => p,
        None => UserStats::fresh(ctx.user),
    };
    if !p.authority.same_as(&ctx.user) {
        return Err(ErrorCode::Unauthorized);
    }
    let total = match ctx.vault_account.total_collateral.checked_add(amount) {
        Some(t) => t,
        None => return Err(ErrorCode::ArithmeticOverflow),
    };
    let collateral = match p.collateral_amount.checked_add(amount) {
        Some(c) => c,
        None => return Err(ErrorCode::ArithmeticOverflow),
    };
    ctx.vault_account.total_collateral = total;
    ctx.user_account = Some(
        UserStats {
            authority: p.authority,
            collateral_amount: collateral,
            borrowed_amount: p.borrowed_amount,
        },
    );
    Ok(Transfer::IntoPool { owner: ctx.user, amount })
}

/// Books a loan of `amount_to_borrow` to the caller at `price`: refused unless
/// the caller's debt afterwards is at most half of its collateral's value. On
/// acceptance it adds the amount to the position's and the ledger's debt and
/// asks for the tokens to move from the pool to the caller, signed by the pool.
pub fn borrow(ctx: &mut Borrow, amount_to_borrow: u64, price: u64) -> (r: Result<
    Transfer,
    ErrorCode,
>)
    ensures
        match borrow_outcome(
            old(ctx).vault_account,
            old(ctx).user_account,
            old(ctx).user,
            amount_to_borrow,
            price,
        ) {
            Ok((ledger, position)) => {
                &&& r == Ok::<Transfer, ErrorCode>(
                    (Transfer::OutOfPool {
                        recipient: old(ctx).user,
                        amount: amount_to_borrow,
                        proof: old(ctx).pool_authority,
                    }),
                )
                &&& final(ctx).vault_account == ledger
                &&& final(ctx).user_account == Some(position)
                &&& final(ctx).user == old(ctx).user
                &&& final(ctx).pool_authority == old(ctx).pool_authority
            },
            Err(e) => r == Err::<Transfer, ErrorCode>(e) && *final(ctx) == *old(ctx),
        },
        r.is_ok() ==> final(ctx).user_account.unwrap().within_limit(price),
{
    let p = match ctx.user_account {
        Some(p) => p,
        None => return Err(ErrorCode::AccountNotInitialized),
    };
    if !p.authority.same_as(&ctx.user) {
        return Err(ErrorCode::Unauthorized);
    }
    proof {
        let c = p.collateral_amount as int;
        let q = price as int;
        assert(c * q <= (u64::MAX as int) * (u64::MAX as int)) by (nonlinear_arith)
            requires
                0 <= c <= u64::MAX,
                0 <= q <= u64::MAX,
        ;
    }
    let value: u128 = (p.collateral_amount as u128) * (price as u128);
    let max_loan: u128 = value / 2;
    if (p.borrowed_amount as u128) + (amount_to_borrow as u128) > max_loan {
        return Err(ErrorCode::InsufficientCollateral);
    }
    let total = match ctx.vault_account.total_borrowed.checked_add(amount_to_borrow) {
        Some(t) => t,
        None => return Err(ErrorCode::ArithmeticOverflow),
    };
    let debt = match p.borrowed_amount.checked_add(amount_to_borrow) {
        Some(d) => d,
        None => return Err(ErrorCode::ArithmeticOverflow),
    };
    ctx.vault_account.total_borrowed = total;
    ctx.user_account = Some(
        UserStats {
            authority: p.authority,
            collateral_amount: p.collateral_amount,
            borrowed_amount: debt,
        },
    );
    Ok(Transfer::OutOfPool { recipient: ctx.user, amount: amount_to_borrow, proof: ctx.pool_authority })
}

} // verus!
