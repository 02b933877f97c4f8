use escrow::instructions::{initialize, refund, take, EscrowProgram, Make, Refund, Take};
use anchor_lang::prelude::Pubkey;
use escrow::state::{Escrow, EscrowError, Key, Offer};

const M: Key = Key { bytes: [1; 32] };
const T: Key = Key { bytes: [2; 32] };
const X: Key = Key { bytes: [3; 32] };
const A: Key = Key { bytes: [10; 32] };
const PROGRAM: Key = Key { bytes: [77; 32] };
const B: Key = Key { bytes: [20; 32] };

fn funded() -> EscrowProgram {
    let mut p = EscrowProgram::new(PROGRAM);
    assert_eq!(p.mint_to(M, A, 1_000), Ok(()));
    assert_eq!(p.mint_to(T, B, 1_000), Ok(()));
    p
}

fn make_accounts() -> Make {
    Make { maker: M, mint_a: A, mint_b: B }
}

fn take_accounts(seed: u64) -> Take {
    Take { taker: T, maker: M, mint_a: A, mint_b: B, seed }
}

fn refund_accounts(signer: Key, seed: u64) -> Refund {
    Refund { maker: signer, mint_a: A, escrow_maker: M, seed }
}

#[test]
fn make_then_take_swaps_and_closes() {
    let mut p = funded();
    assert_eq!(initialize(&mut p, &make_accounts(), 1, 50, 100), Ok(()));
    assert_eq!(p.vault_balance(M, 1), Some(100));
    assert_eq!(p.balance(M, A), 900);
    assert_eq!(take(&mut p, &take_accounts(1), 50), Ok(()));
    assert_eq!(p.balance(M, B), 50);
    assert_eq!(p.balance(T, B), 950);
    assert_eq!(p.balance(T, A), 100);
    assert_eq!(p.balance(M, A), 900);
    assert_eq!(p.offer(M, 1), None);
    assert_eq!(p.vault_balance(M, 1), None);
    assert_eq!(take(&mut p, &take_accounts(1), 50), Err(EscrowError::NotFound));
    assert_eq!(refund(&mut p, &refund_accounts(M, 1)), Err(EscrowError::NotFound));
    assert_eq!(p.balance(T, A), 100);
    assert_eq!(p.balance(M, B), 50);
}

#[test]
fn make_then_refund_returns_deposit() {
    let mut p = funded();
    assert_eq!(initialize(&mut p, &make_accounts(), 2, 5, 10), Ok(()));
    assert_eq!(p.balance(M, A), 990);
    assert_eq!(p.vault_balance(M, 2), Some(10));
    assert_eq!(refund(&mut p, &refund_accounts(M, 2)), Ok(()));
    assert_eq!(p.balance(M, A), 1_000);
    assert_eq!(p.offer(M, 2), None);
    assert_eq!(take(&mut p, &take_accounts(2), 5), Err(EscrowError::NotFound));
    assert_eq!(p.balance(T, A), 0);
    assert_eq!(p.balance(T, B), 1_000);
}

#[test]
fn record_holds_declared_fields() {
    let mut p = funded();
    assert_eq!(initialize(&mut p, &make_accounts(), 7, 42, 30), Ok(()));
    let seed_bytes = 7u64.to_le_bytes();
    let (address, bump) = Pubkey::find_program_address(
        &[b"escrow", &M.bytes, &seed_bytes],
        &Pubkey::new_from_array(PROGRAM.bytes),
    );
    let expected = Offer {
        record: Escrow { seed: 7, maker: M, mint_a: A, mint_b: B, receive: 42, bump },
        address: Key { bytes: address.to_bytes() },
        vault: 30,
    };
    assert_eq!(p.offer(M, 7), Some(expected));
    assert_ne!(expected.address, M);
    assert_ne!(expected.address, PROGRAM);
}

#[test]
fn record_address_depends_on_seed_and_maker() {
    let mut p = funded();
    assert_eq!(p.mint_to(T, A, 10), Ok(()));
    assert_eq!(initialize(&mut p, &make_accounts(), 1, 5, 10), Ok(()));
    assert_eq!(initialize(&mut p, &make_accounts(), 2, 5, 10), Ok(()));
    let other = Make { maker: T, mint_a: A, mint_b: B };
    assert_eq!(initialize(&mut p, &other, 1, 5, 10), Ok(()));
    let a1 = p.offer(M, 1).unwrap().address;
    let a2 = p.offer(M, 2).unwrap().address;
    let a3 = p.offer(T, 1).unwrap().address;
    assert_ne!(a1, a2);
    assert_ne!(a1, a3);
    assert_ne!(a2, a3);
}

#[test]
fn second_make_with_same_seed_fails_and_keeps_first() {
    let mut p = funded();
    assert_eq!(initialize(&mut p, &make_accounts(), 1, 50, 100), Ok(()));
    let before = p.offer(M, 1);
    let other = Make { maker: M, mint_a: A, mint_b: X, };
    assert_eq!(initialize(&mut p, &other, 1, 9, 5), Err(EscrowError::AlreadyInUse));
    assert_eq!(p.offer(M, 1), before);
    assert_eq!(p.balance(M, A), 900);
    assert_eq!(p.vault_balance(M, 1), Some(100));
}

#[test]
fn same_maker_different_seeds_are_independent() {
    let mut p = funded();
    assert_eq!(initialize(&mut p, &make_accounts(), 1, 50, 100), Ok(()));
    assert_eq!(initialize(&mut p, &make_accounts(), 2, 5, 10), Ok(()));
    assert_eq!(p.balance(M, A), 890);
    assert_eq!(refund(&mut p, &refund_accounts(M, 2)), Ok(()));
    assert_eq!(p.vault_balance(M, 1), Some(100));
    assert_eq!(p.balance(M, A), 900);
}

#[test]
fn make_with_insufficient_funds_changes_nothing() {
    let mut p = funded();
    assert_eq!(initialize(&mut p, &make_accounts(), 1, 50, 1_001), Err(EscrowError::InsufficientFunds));
    assert_eq!(p.offer(M, 1), None);
    assert_eq!(p.balance(M, A), 1_000);
}

#[test]
fn make_with_whole_balance_and_zero_deposit() {
    let mut p = funded();
    assert_eq!(initialize(&mut p, &make_accounts(), 1, 50, 1_000), Ok(()));
    assert_eq!(p.balance(M, A), 0);
    assert_eq!(initialize(&mut p, &make_accounts(), 2, 50, 0), Ok(()));
    assert_eq!(p.vault_balance(M, 2), Some(0));
}

#[test]
fn refund_by_other_identity_is_refused() {
    let mut p = funded();
    assert_eq!(initialize(&mut p, &make_accounts(), 1, 50, 100), Ok(()));
    assert_eq!(refund(&mut p, &refund_accounts(T, 1)), Err(EscrowError::Unauthorized));
    assert_eq!(p.vault_balance(M, 1), Some(100));
    assert_eq!(p.balance(T, A), 0);
    assert_eq!(p.balance(M, A), 900);
}

#[test]
fn refund_with_wrong_mint_is_refused() {
    let mut p = funded();
    assert_eq!(initialize(&mut p, &make_accounts(), 1, 50, 100), Ok(()));
    let wrong = Refund { maker: M, mint_a: B, escrow_maker: M, seed: 1 };
    assert_eq!(refund(&mut p, &wrong), Err(EscrowError::MintMismatch));
    assert_eq!(p.vault_balance(M, 1), Some(100));
}

#[test]
fn take_with_wrong_mint_is_refused() {
    let mut p = funded();
    assert_eq!(initialize(&mut p, &make_accounts(), 1, 50, 100), Ok(()));
    let wrong = Take { taker: T, maker: M, mint_a: A, mint_b: X, seed: 1 };
    assert_eq!(take(&mut p, &wrong, 50), Err(EscrowError::MintMismatch));
    assert_eq!(p.vault_balance(M, 1), Some(100));
    assert_eq!(p.balance(T, B), 1_000);
}

#[test]
fn take_with_insufficient_payment_funds_changes_nothing() {
    let mut p = funded();
    assert_eq!(initialize(&mut p, &make_accounts(), 1, 50, 100), Ok(()));
    assert_eq!(take(&mut p, &take_accounts(1), 1_001), Err(EscrowError::InsufficientFunds));
    assert_eq!(p.vault_balance(M, 1), Some(100));
    assert_eq!(p.balance(T, B), 1_000);
    assert_eq!(p.balance(M, B), 0);
    assert_eq!(p.balance(T, A), 0);
}

#[test]
fn take_pays_the_amount_given_not_the_one_asked() {
    let mut p = funded();
    assert_eq!(initialize(&mut p, &make_accounts(), 1, 50, 100), Ok(()));
    assert_eq!(take(&mut p, &take_accounts(1), 20), Ok(()));
    assert_eq!(p.balance(M, B), 20);
    assert_eq!(p.balance(T, A), 100);
}

#[test]
fn take_overflowing_payout_rolls_back_payment() {
    let mut p = funded();
    assert_eq!(initialize(&mut p, &make_accounts(), 1, 50, 100), Ok(()));
    assert_eq!(p.mint_to(T, A, u64::MAX - 50), Ok(()));
    assert_eq!(take(&mut p, &take_accounts(1), 50), Err(EscrowError::Overflow));
    assert_eq!(p.balance(T, B), 1_000);
    assert_eq!(p.balance(M, B), 0);
    assert_eq!(p.balance(T, A), u64::MAX - 50);
    assert_eq!(p.vault_balance(M, 1), Some(100));
}

#[test]
fn take_overflowing_payment_is_refused() {
    let mut p = funded();
    assert_eq!(initialize(&mut p, &make_accounts(), 1, 50, 100), Ok(()));
    assert_eq!(p.mint_to(M, B, u64::MAX - 10), Ok(()));
    assert_eq!(take(&mut p, &take_accounts(1), 50), Err(EscrowError::Overflow));
    assert_eq!(p.balance(T, B), 1_000);
    assert_eq!(p.vault_balance(M, 1), Some(100));
}

#[test]
fn refund_overflowing_balance_is_refused() {
    let mut p = funded();
    assert_eq!(initialize(&mut p, &make_accounts(), 1, 50, 100), Ok(()));
    assert_eq!(p.mint_to(M, A, u64::MAX - 900), Ok(()));
    assert_eq!(refund(&mut p, &refund_accounts(M, 1)), Err(EscrowError::Overflow));
    assert_eq!(p.vault_balance(M, 1), Some(100));
}

#[test]
fn mint_to_overflow_is_refused() {
    let mut p = funded();
    assert_eq!(p.mint_to(M, A, u64::MAX), Err(EscrowError::Overflow));
    assert_eq!(p.balance(M, A), 1_000);
}

#[test]
fn maker_taking_own_offer_gets_deposit_back() {
    let mut p = funded();
    assert_eq!(p.mint_to(M, B, 10), Ok(()));
    assert_eq!(initialize(&mut p, &make_accounts(), 1, 5, 100), Ok(()));
    let own = Take { taker: M, maker: M, mint_a: A, mint_b: B, seed: 1 };
    assert_eq!(take(&mut p, &own, 5), Ok(()));
    assert_eq!(p.balance(M, A), 1_000);
    assert_eq!(p.balance(M, B), 10);
}
