use vstd::prelude::*;

use crate::accounts::{max_loan_value, ErrorCode, UserStats, VaultAccount};
use crate::identity::{lemma_view_injective, Pubkey};
use crate::instructions::deposit_outcome;
use crate::vault::{
    borrowed_sum,
    collateral_sum,
    index_of,
    lemma_borrow_step_keeps,
    lemma_deposit_step_keeps,
    lemma_index_of_spec,
    lemma_position_after,
    lemma_position_le_sums,
    VaultState,
};

verus! {

/// One operation on the pool, as a caller submits it.
pub ghost enum Request {
    Initialize { bump: u8 },
    Deposit { user: Pubkey, amount: u64 },
    Borrow { user: Pubkey, amount: u64 },
}

/// The result of one request: the new state when it is accepted, the old one when refused.
pub open spec fn apply(s: VaultState, req: Request, price: u64) -> VaultState {
    let r = match req {
        Request::Initialize { bump } => s.initialize_step(bump),
        Request::Deposit { user, amount } => s.deposit_step(user, amount),
        Request::Borrow { user, amount } => s.borrow_step(user, amount, price),
    };
    match r {
        Ok(t) => t,
        Err(_) => s,
    }
}

/// The state after the requests `reqs`, in order, with borrows priced at `price`.
pub open spec fn run(s: VaultState, reqs: Seq<Request>, price: u64) -> VaultState
    decreases reqs.len(),
{
    if reqs.len() == 0 {
        s
    } else {
        apply(run(s, reqs.drop_last(), price), reqs.last(), price)
    }
}

/// Every sequence of requests keeps the pool well formed and, at a fixed
/// price, keeps every position within the loan-to-value ceiling.
pub proof fn lemma_run_keeps(s: VaultState, reqs: Seq<Request>, price: u64)
    requires
        s.wf(),
    ensures
        run(s, reqs, price).wf(),
        s.all_within_limit(price) ==> run(s, reqs, price).all_within_limit(price),
    decreases reqs.len(),
{
    if reqs.len() > 0 {
        lemma_run_keeps(s, reqs.drop_last(), price);
        let m = run(s, reqs.drop_last(), price);
        match reqs.last() {
            Request::Initialize { bump } => {
                if m.ledger.is_none() {
                    assert(m.positions.len() == 0);
                }
            },
            Request::Deposit { user, amount } => lemma_deposit_step_keeps(m, user, amount, price),
            Request::Borrow { user, amount } => lemma_borrow_step_keeps(m, user, amount, price),
        }
    }
}

/// Whatever requests are made, the ledger's total collateral is the sum of
/// the collateral of all positions.
pub proof fn lemma_total_collateral_is_sum(reqs: Seq<Request>, price: u64)
    ensures
        run(VaultState::uninitialized(), reqs, price).ledger matches Some(l) ==> l.total_collateral
            == collateral_sum(run(VaultState::uninitialized(), reqs, price).positions),
{
    lemma_run_keeps(VaultState::uninitialized(), reqs, price);
}

/// Whatever requests are made, the ledger's total debt is the sum of the debt
/// of all positions.
pub proof fn lemma_total_borrowed_is_sum(reqs: Seq<Request>, price: u64)
    ensures
        run(VaultState::uninitialized(), reqs, price).ledger matches Some(l) ==> l.total_borrowed
            == borrowed_sum(run(VaultState::uninitialized(), reqs, price).positions),
{
    lemma_run_keeps(VaultState::uninitialized(), reqs, price);
}

/// At a fixed price, after any requests every position owes at most half of
/// its collateral's value: twice its debt is at most collateral times price.
pub proof fn lemma_debt_within_ceiling(reqs: Seq<Request>, price: u64)
    ensures
        forall|i: int|
            0 <= i < run(VaultState::uninitialized(), reqs, price).positions.len() ==> {
                let p = #[trigger] run(VaultState::uninitialized(), reqs, price).positions[i];
                2 * p.borrowed_amount <= p.collateral_amount * price
            },
{
    lemma_run_keeps(VaultState::uninitialized(), reqs, price);
    let t = run(VaultState::uninitialized(), reqs, price);
    assert forall|i: int| 0 <= i < t.positions.len() implies {
        let p = #[trigger] t.positions[i];
        2 * p.borrowed_amount <= p.collateral_amount * price
    } by {
        assert(t.positions[i].within_limit(price));
    }
}

/// A second initialization is refused with `AlreadyInitialized`.
pub proof fn lemma_initialize_twice(s: VaultState, first_bump: u8, second_bump: u8)
    ensures
        s.initialize_step(first_bump) matches Ok(t) ==> t.initialize_step(second_bump) == Err::<
            VaultState,
            ErrorCode,
        >(ErrorCode::AlreadyInitialized),
        s.ledger.is_some() ==> s.initialize_step(second_bump) == Err::<VaultState, ErrorCode>(
            ErrorCode::AlreadyInitialized,
        ),
{
}

/// Borrowing exactly the room left under the ceiling is accepted; one unit
/// more is refused with `InsufficientCollateral`. Stated where the ledger's
/// total debt can grow by the room plus one without leaving `u64`.
pub proof fn lemma_borrow_boundary(s: VaultState, user: Pubkey, price: u64)
    requires
        s.wf(),
        s.position(user@) matches Some(p) && p.borrowed_amount <= max_loan_value(
            p.collateral_amount,
            price,
        ) && s.ledger.unwrap().total_borrowed + max_loan_value(p.collateral_amount, price)
            - p.borrowed_amount + 1 <= u64::MAX,
    ensures
        ({
            let p = s.position(user@).unwrap();
            let room = max_loan_value(p.collateral_amount, price) - p.borrowed_amount;
            &&& s.borrow_step(user, room as u64, price) is Ok
            &&& s.borrow_step(user, (room + 1) as u64, price) == Err::<VaultState, ErrorCode>(
                ErrorCode::InsufficientCollateral,
            )
        }),
{
    lemma_index_of_spec(s.positions, user@);
    lemma_position_le_sums(s.positions, index_of(s.positions, user@));
}

/// A deposit of `a1` by `u1`, then one of `a2` by `u2`.
pub open spec fn deposit_pair(
    s: VaultState,
    u1: Pubkey,
    a1: u64,
    u2: Pubkey,
    a2: u64,
) -> Result<VaultState, ErrorCode> {
    match s.deposit_step(u1, a1) {
        Ok(t) => t.deposit_step(u2, a2),
        Err(e) => Err(e),
    }
}

proof fn lemma_deposit_pair(s: VaultState, u1: Pubkey, a1: u64, u2: Pubkey, a2: u64)
    requires
        s.wf(),
    ensures
        deposit_pair(s, u1, a1, u2, a2) is Ok <==> (s.ledger.is_some()
            && s.ledger.unwrap().total_collateral + a1 + a2 <= u64::MAX),
        deposit_pair(s, u1, a1, u2, a2) matches Ok(t) ==> {
            &&& t.ledger == Some(
                VaultAccount {
                    total_collateral: (s.ledger.unwrap().total_collateral + a1 + a2) as u64,
                    total_borrowed: s.ledger.unwrap().total_borrowed,
                },
            )
            &&& forall|k: Seq<u8>|
                #[trigger] t.position(k) == if k == u1@ && k == u2@ {
                    Some(added(s.position(k), u1, (a1 + a2) as u64))
                } else if k == u1@ {
                    Some(added(s.position(k), u1, a1))
                } else if k == u2@ {
                    Some(added(s.position(k), u2, a2))
                } else {
                    s.position(k)
                }
        },
{
    lemma_deposit_step_keeps(s, u1, a1, 0);
    if let Some(l) = s.ledger {
        lemma_index_of_spec(s.positions, u1@);
        let i = index_of(s.positions, u1@);
        if 0 <= i {
            lemma_position_le_sums(s.positions, i);
        }
        if let Ok(t) = s.deposit_step(u1, a1) {
            let p1 = deposit_outcome(l, s.position(u1@), u1, a1).unwrap().1;
            lemma_index_of_spec(t.positions, u2@);
            let j = index_of(t.positions, u2@);
            if 0 <= j {
                lemma_position_le_sums(t.positions, j);
            }
            assert forall|k: Seq<u8>| true implies #[trigger] t.position(k) == (if k == u1@ {
                Some(p1)
            } else {
                s.position(k)
            }) by {
                lemma_position_after(s, p1, k);
            }
            if let Ok(w) = t.deposit_step(u2, a2) {
                let p2 = deposit_outcome(t.ledger.unwrap(), t.position(u2@), u2, a2).unwrap().1;
                assert forall|k: Seq<u8>| true implies #[trigger] w.position(k) == (if k == u2@ {
                    Some(p2)
                } else {
                    t.position(k)
                }) by {
                    lemma_position_after(t, p2, k);
                }
            }
        }
    }
}

/// The position of `user` after `amount` more collateral, from `p`, or from
/// nothing where `user` had no position.
pub open spec fn added(p: Option<UserStats>, user: Pubkey, amount: u64) -> UserStats {
    match p {
        Some(q) => q.with_collateral_added(amount),
        None => UserStats::spec_fresh(user).with_collateral_added(amount),
    }
}

/// Two deposits give the same ledger and the same position for every
/// identity in either order, and are accepted in one order exactly when they
/// are in the other.
pub proof fn lemma_deposits_commute(s: VaultState, u1: Pubkey, a1: u64, u2: Pubkey, a2: u64)
    requires
        s.wf(),
    ensures
        deposit_pair(s, u1, a1, u2, a2) is Ok <==> deposit_pair(s, u2, a2, u1, a1) is Ok,
        deposit_pair(s, u1, a1, u2, a2) matches Ok(t) ==> deposit_pair(s, u2, a2, u1, a1) matches Ok(
            w,
        ) && t.ledger == w.ledger && forall|k: Seq<u8>| #[trigger] t.position(k) == w.position(k),
{
    lemma_deposit_pair(s, u1, a1, u2, a2);
    lemma_deposit_pair(s, u2, a2, u1, a1);
    if u1@ == u2@ {
        lemma_view_injective(u1, u2);
    }
}

} // verus!
