use safe_vault::accounts::{ErrorCode, UserStats, VaultAccount};
use safe_vault::authority::{PoolAuthorityProof, Transfer};
use safe_vault::identity::Pubkey;
use safe_vault::instructions::{borrow, deposit, initialize, Borrow, Deposit, Initialize};
use safe_vault::vault::Vault;

const PRICE: u64 = 100;

fn key(b: u8) -> Pubkey {
    Pubkey::new([b; 32])
}

fn ready_vault() -> Vault {
    let mut v = Vault::new();
    assert!(v.initialize(254).is_ok());
    v
}

fn sums(v: &Vault, users: &[Pubkey]) -> (u64, u64) {
    let mut c = 0u64;
    let mut b = 0u64;
    for u in users {
        if let Some(p) = v.position(u) {
            c += p.collateral_amount;
            b += p.borrowed_amount;
        }
    }
    (c, b)
}

#[test]
fn deposit_creates_position_and_books_collateral() {
    let mut v = ready_vault();
    let u1 = key(1);
    let r = v.deposit(u1, 1000);
    assert!(matches!(r, Ok(Transfer::IntoPool { amount: 1000, .. })));
    let p = v.position(&u1).unwrap();
    assert_eq!(p.collateral_amount, 1000);
    assert_eq!(p.borrowed_amount, 0);
    assert!(p.authority.same_as(&u1));
    assert_eq!(v.ledger().unwrap().total_collateral, 1000);
}

#[test]
fn borrow_up_to_half_the_collateral_value() {
    let mut v = ready_vault();
    let u1 = key(1);
    v.deposit(u1, 1000).unwrap();
    let r = v.borrow(u1, 50000, PRICE);
    match r {
        Ok(Transfer::OutOfPool { recipient, amount, proof }) => {
            assert!(recipient.same_as(&u1));
            assert_eq!(amount, 50000);
            assert_eq!(proof, PoolAuthorityProof::new(254));
        }
        _ => panic!("the loan should be accepted"),
    }
    assert_eq!(v.position(&u1).unwrap().borrowed_amount, 50000);
    assert_eq!(v.ledger().unwrap().total_borrowed, 50000);
    assert!(matches!(v.borrow(u1, 1, PRICE), Err(ErrorCode::InsufficientCollateral)));
    assert_eq!(v.position(&u1).unwrap().borrowed_amount, 50000);
    assert_eq!(v.ledger().unwrap().total_borrowed, 50000);
}

#[test]
fn borrow_without_deposit_is_refused() {
    let mut v = ready_vault();
    let u1 = key(1);
    assert!(matches!(v.borrow(u1, 0, PRICE), Err(ErrorCode::AccountNotInitialized)));
    assert!(matches!(v.borrow(u1, 10, PRICE), Err(ErrorCode::AccountNotInitialized)));
    assert!(v.position(&u1).is_none());
    assert_eq!(v.ledger().unwrap().total_borrowed, 0);
}

#[test]
fn deposits_in_either_order_give_the_same_totals() {
    let (u1, u2) = (key(1), key(2));
    let mut a = ready_vault();
    a.deposit(u1, 100).unwrap();
    a.deposit(u2, 200).unwrap();
    let mut b = ready_vault();
    b.deposit(u2, 200).unwrap();
    b.deposit(u1, 100).unwrap();
    assert_eq!(a.ledger().unwrap().total_collateral, 300);
    assert_eq!(b.ledger().unwrap().total_collateral, 300);
    assert_eq!(a.position(&u1).unwrap().collateral_amount, 100);
    assert_eq!(b.position(&u1).unwrap().collateral_amount, 100);
    assert_eq!(a.position(&u2).unwrap().collateral_amount, 200);
    assert_eq!(b.position(&u2).unwrap().collateral_amount, 200);
}

#[test]
fn second_initialize_is_refused() {
    let mut v = ready_vault();
    v.deposit(key(1), 5).unwrap();
    assert!(matches!(v.initialize(7), Err(ErrorCode::AlreadyInitialized)));
    assert_eq!(v.ledger().unwrap(), VaultAccount { total_collateral: 5, total_borrowed: 0 });
    assert_eq!(v.pool_authority(), Some(PoolAuthorityProof::new(254)));
}

#[test]
fn borrow_exactly_the_room_left_and_not_one_more() {
    let mut v = ready_vault();
    let u1 = key(1);
    v.deposit(u1, 7).unwrap();
    // 7 * 3 / 2 rounds down to 10
    v.borrow(u1, 4, 3).unwrap();
    assert!(matches!(v.borrow(u1, 7, 3), Err(ErrorCode::InsufficientCollateral)));
    assert_eq!(v.position(&u1).unwrap().borrowed_amount, 4);
    assert_eq!(v.ledger().unwrap().total_borrowed, 4);
    assert!(v.borrow(u1, 6, 3).is_ok());
    assert_eq!(v.position(&u1).unwrap().borrowed_amount, 10);
    assert!(matches!(v.borrow(u1, 1, 3), Err(ErrorCode::InsufficientCollateral)));
}

#[test]
fn totals_track_positions_over_mixed_operations() {
    let users = [key(1), key(2), key(3)];
    let mut v = ready_vault();
    v.deposit(users[0], 40).unwrap();
    v.deposit(users[1], 10).unwrap();
    v.borrow(users[0], 1500, PRICE).unwrap();
    v.deposit(users[0], 5).unwrap();
    assert!(v.borrow(users[2], 1, PRICE).is_err());
    v.borrow(users[1], 500, PRICE).unwrap();
    assert!(v.borrow(users[1], 1, PRICE).is_err());
    v.deposit(users[2], 1).unwrap();
    let l = v.ledger().unwrap();
    assert_eq!((l.total_collateral, l.total_borrowed), sums(&v, &users));
    assert_eq!(l, VaultAccount { total_collateral: 56, total_borrowed: 2000 });
    for u in &users {
        let p = v.position(u).unwrap();
        assert!(2 * p.borrowed_amount <= p.collateral_amount * PRICE);
    }
}

#[test]
fn operations_before_initialize_are_refused() {
    let mut v = Vault::new();
    assert!(matches!(v.deposit(key(1), 1), Err(ErrorCode::AccountNotInitialized)));
    assert!(matches!(v.borrow(key(1), 1, PRICE), Err(ErrorCode::AccountNotInitialized)));
    assert!(v.ledger().is_none());
}

#[test]
fn deposit_that_overflows_the_total_is_refused() {
    let mut v = ready_vault();
    v.deposit(key(1), u64::MAX - 1).unwrap();
    assert!(matches!(v.deposit(key(2), 2), Err(ErrorCode::ArithmeticOverflow)));
    assert!(v.position(&key(2)).is_none());
    assert!(v.deposit(key(2), 1).is_ok());
    assert_eq!(v.ledger().unwrap().total_collateral, u64::MAX);
}

#[test]
fn borrow_that_overflows_the_debt_is_refused() {
    let mut v = ready_vault();
    v.deposit(key(1), u64::MAX).unwrap();
    v.borrow(key(1), u64::MAX, 2).unwrap();
    assert!(matches!(v.borrow(key(1), 1, 4), Err(ErrorCode::ArithmeticOverflow)));
    assert_eq!(v.ledger().unwrap().total_borrowed, u64::MAX);
}

#[test]
fn instruction_initialize_sets_zero_totals() {
    let mut ctx = Initialize { vault_account: None, vault_token_bump: 9 };
    assert_eq!(initialize(&mut ctx), Ok(PoolAuthorityProof::new(9)));
    assert_eq!(ctx.vault_account, Some(VaultAccount { total_collateral: 0, total_borrowed: 0 }));
    assert_eq!(initialize(&mut ctx), Err(ErrorCode::AlreadyInitialized));
}

#[test]
fn instruction_deposit_by_a_stranger_is_refused() {
    let owner = key(1);
    let mut ctx = Deposit {
        vault_account: VaultAccount { total_collateral: 10, total_borrowed: 0 },
        user_account: Some(UserStats { authority: owner, collateral_amount: 10, borrowed_amount: 0 }),
        user: key(2),
    };
    assert!(matches!(deposit(&mut ctx, 5), Err(ErrorCode::Unauthorized)));
    assert_eq!(ctx.vault_account.total_collateral, 10);
    assert_eq!(ctx.user_account.unwrap().collateral_amount, 10);
}

#[test]
fn instruction_borrow_by_a_stranger_is_refused() {
    let owner = key(1);
    let mut ctx = Borrow {
        vault_account: VaultAccount { total_collateral: 10, total_borrowed: 0 },
        user_account: Some(UserStats { authority: owner, collateral_amount: 10, borrowed_amount: 0 }),
        user: key(2),
        pool_authority: PoolAuthorityProof::new(1),
    };
    assert!(matches!(borrow(&mut ctx, 5, PRICE), Err(ErrorCode::Unauthorized)));
    assert_eq!(ctx.user_account.unwrap().borrowed_amount, 0);
}

#[test]
fn instruction_deposit_creates_missing_position() {
    let mut ctx = Deposit {
        vault_account: VaultAccount { total_collateral: 3, total_borrowed: 1 },
        user_account: None,
        user: key(4),
    };
    assert!(deposit(&mut ctx, 1000).is_ok());
    let p = ctx.user_account.unwrap();
    assert!(p.authority.same_as(&key(4)));
    assert_eq!((p.collateral_amount, p.borrowed_amount), (1000, 0));
    assert_eq!(ctx.vault_account, VaultAccount { total_collateral: 1003, total_borrowed: 1 });
}

#[test]
fn signer_seeds_are_tag_and_bump() {
    let seeds = PoolAuthorityProof::new(253).signer_seeds();
    assert_eq!(seeds, vec![b"vault_tokens".to_vec(), vec![253u8]]);
}

#[test]
fn identities_compare_by_bytes() {
    let mut bytes = [7u8; 32];
    assert!(key(7).same_as(&Pubkey::new(bytes)));
    bytes[31] = 8;
    assert!(!key(7).same_as(&Pubkey::new(bytes)));
}
