use vstd::prelude::*;

use crate::accounts::{ErrorCode, UserStats, VaultAccount};
use crate::authority::{PoolAuthorityProof, Transfer};
use crate::identity::Pubkey;
use crate::instructions::{
    borrow,
    borrow_outcome,
    deposit,
    deposit_outcome,
    initialize,
    Borrow,
    Deposit,
    Initialize,
};

verus! {

/// Sum of the collateral of the positions `ps`.
pub open spec fn collateral_sum(ps: Seq<UserStats>) -> int
    decreases ps.len(),
{
    if ps.len() == 0 {
        0
    } else {
        collateral_sum(ps.drop_last()) + ps.last().collateral_amount
    }
}

/// Sum of the debt of the positions `ps`.
pub open spec fn borrowed_sum(ps: Seq<UserStats>) -> int
    decreases ps.len(),
{
    if ps.len() == 0 {
        0
    } else {
        borrowed_sum(ps.drop_last()) + ps.last().borrowed_amount
    }
}

/// No two positions of `ps` belong to the same identity.
pub open spec fn owners_unique(ps: Seq<UserStats>) -> bool {
    forall|i: int, j: int|
        0 <= i < ps.len() && 0 <= j < ps.len() && i != j ==> ps[i].authority@ != ps[j].authority@
}

/// Where the position of `key` stands in `ps`, or -1 where it has none.
pub open spec fn index_of(ps: Seq<UserStats>, key: Seq<u8>) -> int {
    if exists|i: int| 0 <= i < ps.len() && ps[i].authority@ == key {
        choose|i: int| 0 <= i < ps.len() && ps[i].authority@ == key
    } else {
        -1
    }
}

/// The position of `key` in `ps`, if it has one.
pub open spec fn position_of(ps: Seq<UserStats>, key: Seq<u8>) -> Option<UserStats> {
    let i = index_of(ps, key);
    if 0 <= i {
        Some(ps[i])
    } else {
        None
    }
}

/// The whole lending pool as a mathematical value.
pub ghost struct VaultState {
    /// The pool-wide totals, once initialized.
    pub ledger: Option<VaultAccount>,
    /// The pool's authority over its holding account, once initialized.
    pub pool_authority: Option<PoolAuthorityProof>,
    /// One position per identity, in order of creation.
    pub positions: Seq<UserStats>,
}

impl VaultState {
    /// The pool before initialization.
    pub open spec fn uninitialized() -> VaultState {
        VaultState { ledger: None, pool_authority: None, positions: Seq::empty() }
    }

    /// Each total equals the sum over the positions, owners are unique, and no
    /// position exists before the ledger does.
    pub open spec fn wf(self) -> bool {
        &&& owners_unique(self.positions)
        &&& self.ledger.is_some() == self.pool_authority.is_some()
        &&& match self.ledger {
            None => self.positions.len() == 0,
            Some(l) => {
                &&& l.total_collateral == collateral_sum(self.positions)
                &&& l.total_borrowed == borrowed_sum(self.positions)
            },
        }
    }

    /// Every position respects the loan-to-value ceiling at `price`.
    pub open spec fn all_within_limit(self, price: u64) -> bool {
        forall|i: int| 0 <= i < self.positions.len() ==> #[trigger] self.positions[i].within_limit(price)
    }

    pub open spec fn position(self, key: Seq<u8>) -> Option<UserStats> {
        position_of(self.positions, key)
    }

    /// The positions with `p` put in the place of `key`'s, or added at the end.
    pub open spec fn with_position(self, key: Seq<u8>, p: UserStats) -> Seq<UserStats> {
        let i = index_of(self.positions, key);
        if 0 <= i {
            self.positions.update(i, p)
        } else {
            self.positions.push(p)
        }
    }

    pub open spec fn initialize_step(self, bump: u8) -> Result<VaultState, ErrorCode> {
        if self.ledger.is_some() {
            Err(ErrorCode::AlreadyInitialized)
        } else {
            Ok(
                VaultState {
                    ledger: Some(VaultAccount::spec_empty()),
                    pool_authority: Some(PoolAuthorityProof { bump }),
                    positions: self.positions,
                },
            )
        }
    }

    pub open spec fn deposit_step(self, user: Pubkey, amount: u64) -> Result<VaultState, ErrorCode> {
        match self.ledger {
            None => Err(ErrorCode::AccountNotInitialized),
            Some(l) => match deposit_outcome(l, self.position(user@), user, amount) {
                Err(e) => Err(e),
                Ok((l2, p2)) => Ok(
                    VaultState {
                        ledger: Some(l2),
                        pool_authority: self.pool_authority,
                        positions: self.with_position(user@, p2),
                    },
                ),
            },
        }
    }

    pub open spec fn borrow_step(self, user: Pubkey, amount: u64, price: u64) -> Result<
        VaultState,
        ErrorCode,
    > {
        match self.ledger {
            None => Err(ErrorCode::AccountNotInitialized),
            Some(l) => match borrow_outcome(l, self.position(user@), user, amount, price) {
                Err(e) => Err(e),
                Ok((l2, p2)) => Ok(
                    VaultState {
                        ledger: Some(l2),
                        pool_authority: self.pool_authority,
                        positions: self.with_position(user@, p2),
                    },
                ),
            },
        }
    }
}

/// The keyed store of the pool: its ledger, its authority and one position per identity.
pub struct Vault {
    ledger: Option<VaultAccount>,
    pool_authority: Option<PoolAuthorityProof>,
    positions: Vec<UserStats>,
}

impl View for Vault {
    type V = VaultState;

    closed spec fn view(&self) -> VaultState {
        VaultState {
            ledger: self.ledger,
            pool_authority: self.pool_authority,
            positions: self.positions@,
        }
    }
}

/// Replacing one position changes each sum by the difference it makes.
pub proof fn lemma_sums_update(ps: Seq<UserStats>, i: int, p: UserStats)
    requires
        0 <= i < ps.len(),
    ensures
        collateral_sum(ps.update(i, p)) == collateral_sum(ps) - ps[i].collateral_amount
            + p.collateral_amount,
        borrowed_sum(ps.update(i, p)) == borrowed_sum(ps) - ps[i].borrowed_amount
            + p.borrowed_amount,
    decreases ps.len(),
{
    let qs = ps.update(i, p);
    if i == ps.len() - 1 {
        assert(qs.drop_last() =~= ps.drop_last());
    } else {
        lemma_sums_update(ps.drop_last(), i, p);
        assert(qs.drop_last() =~= ps.drop_last().update(i, p));
    }
}

/// Adding a position adds its amounts to each sum.
pub proof fn lemma_sums_push(ps: Seq<UserStats>, p: UserStats)
    ensures
        collateral_sum(ps.push(p)) == collateral_sum(ps) + p.collateral_amount,
        borrowed_sum(ps.push(p)) == borrowed_sum(ps) + p.borrowed_amount,
{
    assert(ps.push(p).drop_last() =~= ps);
}

/// With unique owners, the position of `key` is the one whose owner is `key`.
pub proof fn lemma_index_of_found(ps: Seq<UserStats>, key: Seq<u8>, j: int)
    requires
        owners_unique(ps),
        0 <= j < ps.len(),
        ps[j].authority@ == key,
    ensures
        index_of(ps, key) == j,
{
}

/// The position of `key` has `key` as owner; where there is none, no owner is `key`.
pub proof fn lemma_index_of_spec(ps: Seq<UserStats>, key: Seq<u8>)
    ensures
        -1 <= index_of(ps, key) < ps.len(),
        0 <= index_of(ps, key) ==> ps[index_of(ps, key)].authority@ == key,
        index_of(ps, key) == -1 ==> forall|i: int| 0 <= i < ps.len() ==> ps[i].authority@ != key,
{
}

/// Putting a position for `p`'s owner in place keeps the owners unique and
/// changes the sums by the difference it makes.
pub proof fn lemma_with_position(s: VaultState, p: UserStats)
    requires
        owners_unique(s.positions),
        s.position(p.authority@) matches Some(old_p) ==> old_p.authority@ == p.authority@,
    ensures
        owners_unique(s.with_position(p.authority@, p)),
        collateral_sum(s.with_position(p.authority@, p)) == collateral_sum(s.positions)
            + p.collateral_amount - (match s.position(p.authority@) {
            Some(q) => q.collateral_amount as int,
            None => 0,
        }),
        borrowed_sum(s.with_position(p.authority@, p)) == borrowed_sum(s.positions)
            + p.borrowed_amount - (match s.position(p.authority@) {
            Some(q) => q.borrowed_amount as int,
            None => 0,
        }),
        forall|k: int|
            0 <= k < s.positions.len() && k != index_of(s.positions, p.authority@) ==> (
            #[trigger] s.with_position(p.authority@, p)[k]) == s.positions[k],
        s.with_position(p.authority@, p).len() >= s.positions.len(),
        forall|k: int|
            s.positions.len() <= k < s.with_position(p.authority@, p).len() ==> (
            #[trigger] s.with_position(p.authority@, p)[k]) == p,
        0 <= index_of(s.positions, p.authority@) ==> s.with_position(p.authority@, p)[index_of(
            s.positions,
            p.authority@,
        )] == p,
{
    let key = p.authority@;
    lemma_index_of_spec(s.positions, key);
    let i = index_of(s.positions, key);
    if 0 <= i {
        lemma_sums_update(s.positions, i, p);
    } else {
        lemma_sums_push(s.positions, p);
    }
}

/// One position's amounts are at most the sums over all positions.
pub proof fn lemma_position_le_sums(ps: Seq<UserStats>, i: int)
    requires
        0 <= i < ps.len(),
    ensures
        0 <= ps[i].collateral_amount <= collateral_sum(ps),
        0 <= ps[i].borrowed_amount <= borrowed_sum(ps),
    decreases ps.len(),
{
    lemma_sums_nonnegative(ps.drop_last());
    if i < ps.len() - 1 {
        lemma_position_le_sums(ps.drop_last(), i);
    }
}

/// The sums are never negative.
pub proof fn lemma_sums_nonnegative(ps: Seq<UserStats>)
    ensures
        0 <= collateral_sum(ps),
        0 <= borrowed_sum(ps),
    decreases ps.len(),
{
    if ps.len() > 0 {
        lemma_sums_nonnegative(ps.drop_last());
    }
}

/// After putting `p` in place, `p` is the position of its owner and every
/// other identity keeps its position.
pub proof fn lemma_position_after(s: VaultState, p: UserStats, key: Seq<u8>)
    requires
        owners_unique(s.positions),
        s.position(p.authority@) matches Some(old_p) ==> old_p.authority@ == p.authority@,
    ensures
        position_of(s.with_position(p.authority@, p), key) == (if key == p.authority@ {
            Some(p)
        } else {
            s.position(key)
        }),
{
    let own = p.authority@;
    let t = s.with_position(own, p);
    lemma_with_position(s, p);
    lemma_index_of_spec(s.positions, own);
    lemma_index_of_spec(s.positions, key);
    let i = index_of(s.positions, own);
    if key == own {
        if 0 <= i {
            lemma_index_of_found(t, key, i);
        } else {
            lemma_index_of_found(t, key, s.positions.len() as int);
        }
    } else {
        let j = index_of(s.positions, key);
        if 0 <= j {
            assert(j != i);
            lemma_index_of_found(t, key, j);
        } else {
            assert forall|k: int| 0 <= k < t.len() implies t[k].authority@ != key by {
                if k < s.positions.len() && k != i {
                    assert(t[k] == s.positions[k]);
                }
            }
            lemma_index_of_spec(t, key);
        }
    }
}

/// A deposit keeps the totals equal to the sums, and the ceiling at any price.
pub proof fn lemma_deposit_step_keeps(s: VaultState, user: Pubkey, amount: u64, price: u64)
    requires
        s.wf(),
    ensures
        s.deposit_step(user, amount) matches Ok(t) ==> t.wf() && (s.all_within_limit(price)
            ==> t.all_within_limit(price)),
{
    if let Ok(t) = s.deposit_step(user, amount) {
        let l = s.ledger.unwrap();
        let (l2, p2) = deposit_outcome(l, s.position(user@), user, amount).unwrap();
        lemma_index_of_spec(s.positions, user@);
        assert(p2.authority@ == user@);
        lemma_with_position(s, p2);
        if s.all_within_limit(price) {
            assert forall|k: int| 0 <= k < t.positions.len() implies #[trigger] t.positions[k].within_limit(
                price,
            ) by {
                if k < s.positions.len() && k != index_of(s.positions, user@) {
                    assert(s.positions[k].within_limit(price));
                } else {
                    let b = p2.borrowed_amount as int;
                    let c0 = p2.collateral_amount - amount;
                    let c = p2.collateral_amount as int;
                    let q = price as int;
                    if 0 <= index_of(s.positions, user@) {
                        assert(s.positions[index_of(s.positions, user@)].within_limit(price));
                    }
                    assert(2 * b <= c0 * q);
                    assert(2 * b <= c * q) by (nonlinear_arith)
                        requires
                            2 * b <= c0 * q,
                            0 <= c0 <= c,
                            0 <= q,
                    ;
                }
            }
        }
    }
}

/// An accepted borrow keeps the totals equal to the sums, and leaves the
/// borrower's position within the ceiling at the price it was made at.
pub proof fn lemma_borrow_step_keeps(s: VaultState, user: Pubkey, amount: u64, price: u64)
    requires
        s.wf(),
    ensures
        s.borrow_step(user, amount, price) matches Ok(t) ==> {
            &&& t.wf()
            &&& t.position(user@) matches Some(p) && p.within_limit(price)
            &&& s.all_within_limit(price) ==> t.all_within_limit(price)
        },
{
    if let Ok(t) = s.borrow_step(user, amount, price) {
        let l = s.ledger.unwrap();
        let (l2, p2) = borrow_outcome(l, s.position(user@), user, amount, price).unwrap();
        lemma_index_of_spec(s.positions, user@);
        let i = index_of(s.positions, user@);
        assert(0 <= i);
        assert(p2.authority@ == user@);
        lemma_with_position(s, p2);
        lemma_index_of_found(t.positions, user@, i);
        let c = p2.collateral_amount as int;
        let q = price as int;
        assert(2 * p2.borrowed_amount <= c * q);
        if s.all_within_limit(price) {
            assert forall|k: int| 0 <= k < t.positions.len() implies #[trigger] t.positions[k].within_limit(
                price,
            ) by {
                if k != i {
                    assert(s.positions[k].within_limit(price));
                }
            }
        }
    }
}

impl Vault {
    /// A pool that is not initialized yet.
    pub fn new() -> (r: Vault)
        ensures
            r@ == VaultState::uninitialized(),
            r@.wf(),
    {
        let r = Vault { ledger: None, pool_authority: None, positions: Vec::new() };
        assert(r@.positions =~= Seq::<UserStats>::empty());
        r
    }

    pub fn ledger(&self) -> (r: Option<VaultAccount>)
        ensures
            r == self@.ledger,
    {
        self.ledger
    }

    pub fn pool_authority(&self) -> (r: Option<PoolAuthorityProof>)
        ensures
            r == self@.pool_authority,
    {
        self.pool_authority
    }

    /// Where `user`'s position stands among the positions.
    fn find(&self, user: &Pubkey) -> (r: Option<usize>)
        requires
            owners_unique(self@.positions),
        ensures
            match r {
                Some(i) => i == index_of(self@.positions, user@),
                None => index_of(self@.positions, user@) == -1,
            },
    {
        let mut i: usize = 0;
        while i < self.positions.len()
            invariant
                0 <= i <= self.positions@.len(),
                owners_unique(self@.positions),
                self@.positions == self.positions@,
                forall|k: int| 0 <= k < i ==> self.positions@[k].authority@ != user@,
            decreases self.positions@.len() - i,
        {
            if self.positions[i].authority.same_as(user) {
                proof {
                    lemma_index_of_found(self@.positions, user@, i as int);
                }
                return Some(i);
            }
            i = i + 1;
        }
        proof {
            lemma_index_of_spec(self@.positions, user@);
        }
        None
    }

    /// The position of `user`, if a deposit created one.
    pub fn position(&self, user: &Pubkey) -> (r: Option<UserStats>)
        requires
            self@.wf(),
        ensures
            r == self@.position(user@),
    {
        match self.find(user) {
            Some(i) => Some(self.positions[i]),
            None => None,
        }
    }

    /// Creates the ledger with both totals at zero and records the pool's
    /// authority; refused, with nothing changed, when the ledger exists.
    pub fn initialize(&mut self, vault_token_bump: u8) -> (r: Result<PoolAuthorityProof, ErrorCode>)
        requires
            old(self)@.wf(),
        ensures
            final(self)@.wf(),
            match old(self)@.initialize_step(vault_token_bump) {
                Ok(t) => final(self)@ == t && r == Ok::<PoolAuthorityProof, ErrorCode>(
                    (PoolAuthorityProof { bump: vault_token_bump }),
                ),
                Err(e) => final(self)@ == old(self)@ && r == Err::<PoolAuthorityProof, ErrorCode>(e),
            },
    {
        let mut ctx = Initialize { vault_account: self.ledger, vault_token_bump };
        let r = initialize(&mut ctx);
        if let Ok(proof) = r {
            self.ledger = ctx.vault_account;
            self.pool_authority = Some(proof);
        }
        r
    }

    /// Books a deposit of `amount` by `user`, creating `user`'s position on
    /// the first one; refused, with nothing changed, before initialization or
    /// where a total would overflow.
    pub fn deposit(&mut self, user: Pubkey, amount: u64) -> (r: Result<Transfer, ErrorCode>)
        requires
            old(self)@.wf(),
        ensures
            final(self)@.wf(),
            match old(self)@.deposit_step(user, amount) {
                Ok(t) => final(self)@ == t && r == Ok::<Transfer, ErrorCode>(
                    (Transfer::IntoPool { owner: user, amount }),
                ),
                Err(e) => final(self)@ == old(self)@ && r == Err::<Transfer, ErrorCode>(e),
            },
    {
        proof {
            lemma_deposit_step_keeps(self@, user, amount, 0);
        }
        let ledger = match self.ledger {
            Some(l) => l,
            None => return Err(ErrorCode::AccountNotInitialized),
        };
        let found = self.find(&user);
        let user_account = match found {
            Some(i) => Some(self.positions[i]),
            None => None,
        };
        let mut ctx = Deposit { vault_account: ledger, user_account, user };
        let r = deposit(&mut ctx, amount);
        if r.is_ok() {
            if let Some(p) = ctx.user_account {
                self.ledger = Some(ctx.vault_account);
                match found {
                    Some(i) => self.positions.set(i, p),
                    None => self.positions.push(p),
                }
            }
        }
        proof {
            if r.is_ok() {
                assert(self@.positions =~= old(self)@.with_position(user@, ctx.user_account.unwrap()));
            }
        }
        r
    }

    /// Books a loan of `amount` to `user` at `price`, signed by the pool's
    /// recorded authority; refused, with nothing changed, where `user` has no
    /// position, the loan would pass half the collateral's value, or a total
    /// would overflow.
    pub fn borrow(&mut self, user: Pubkey, amount: u64, price: u64) -> (r: Result<Transfer, ErrorCode>)
        requires
            old(self)@.wf(),
        ensures
            final(self)@.wf(),
            match old(self)@.borrow_step(user, amount, price) {
                Ok(t) => final(self)@ == t && r == Ok::<Transfer, ErrorCode>(
                    (Transfer::OutOfPool {
                        recipient: user,
                        amount,
                        proof: old(self)@.pool_authority.unwrap(),
                    }),
                ),
                Err(e) => final(self)@ == old(self)@ && r == Err::<Transfer, ErrorCode>(e),
            },
            r.is_ok() ==> (final(self)@.position(user@) matches Some(p) && p.within_limit(price)),
    {
        proof {
            lemma_borrow_step_keeps(self@, user, amount, price);
        }
        let (ledger, pool_authority) = match (self.ledger, self.pool_authority) {
            (Some(l), Some(a)) => (l, a),
            _ => return Err(ErrorCode::AccountNotInitialized),
        };
        let found = self.find(&user);
        let user_account = match found {
            Some(i) => Some(self.positions[i]),
            None => None,
        };
        let mut ctx = Borrow { vault_account: ledger, user_account, user, pool_authority };
        let r = borrow(&mut ctx, amount, price);
        if r.is_ok() {
            if let Some(p) = ctx.user_account {
                self.ledger = Some(ctx.vault_account);
                match found {
                    Some(i) => self.positions.set(i, p),
                    None => self.positions.push(p),
                }
            }
        }
        proof {
            if r.is_ok() {
                assert(self@.positions =~= old(self)@.with_position(user@, ctx.user_account.unwrap()));
            }
        }
        r
    }
}

} // verus!
