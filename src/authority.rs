use vstd::prelude::*;

use crate::identity::Pubkey;

verus! {

/// The tag from which the pool's holding account is derived: the bytes of `vault_tokens`.
pub open spec fn vault_tokens_tag() -> Seq<u8> {
    // v a u l t _ t o k e n s in ASCII
    seq![118u8, 97, 117, 108, 116, 95, 116, 111, 107, 101, 110, 115]
}

/// The pool's authority over its own holding account. It is no secret: the
/// holding account's address is derived from the fixed tag and this bump, and
/// presenting both is what lets the pool sign for that account.
#[derive(Clone, Copy, Debug, PartialEq, Eq, Structural)]
pub struct PoolAuthorityProof {
    pub bump: u8,
}

impl PoolAuthorityProof {
    pub fn new(bump: u8) -> (r: PoolAuthorityProof)
        ensures
            r.bump == bump,
    {
        PoolAuthorityProof { bump }
    }

    /// The signer seeds of the pool: the tag, then the bump as one byte.
    pub fn signer_seeds(&self) -> (r: Vec<Vec<u8>>)
        ensures
            r@.len() == 2,
            r@[0]@ == vault_tokens_tag(),
            r@[1]@ == seq![self.bump],
    {
        let tag: Vec<u8> = vec![118u8, 97, 117, 108, 116, 95, 116, 111, 107, 101, 110, 115];
        let bump: Vec<u8> = vec![self.bump];
        proof {
            assert(tag@ =~= vault_tokens_tag());
            assert(bump@ =~= seq![self.bump]);
        }
        vec![tag, bump]
    }
}

/// A movement of tokens that an accepted operation asks the token program to make.
#[derive(Clone, Copy, Debug)]
pub enum Transfer {
    /// `amount` moves from `owner`'s token account into the pool, signed by `owner`.
    IntoPool { owner: Pubkey, amount: u64 },
    /// `amount` moves from the pool to `recipient`'s token account, signed by the pool.
    OutOfPool { recipient: Pubkey, amount: u64, proof: PoolAuthorityProof },
}

} // verus!
