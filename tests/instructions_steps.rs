use escrow::instructions::{EscrowProgram, Make, Refund, Take};
use escrow::ledger::Ledger;
use escrow::state::{EscrowError, Key};

fn k(n: u8) -> Key {
    let mut bytes = [0u8; 32];
    bytes[0] = n;
    bytes[31] = 9;
    Key { bytes }
}

#[test]
fn init_escrow_then_deposit() {
    let mut p = EscrowProgram::new(k(99));
    assert_eq!(p.mint_to(k(1), k(10), 100), Ok(()));
    let m = Make { maker: k(1), mint_a: k(10), mint_b: k(20) };
    assert_eq!(m.deposit(&mut p, 4, 5), Err(EscrowError::NotFound));
    assert_eq!(m.init_escrow(&mut p, 4, 7), Ok(()));
    assert_eq!(p.vault_balance(k(1), 4), Some(0));
    assert_eq!(m.init_escrow(&mut p, 4, 7), Err(EscrowError::AlreadyInUse));
    assert_eq!(m.deposit(&mut p, 4, 101), Err(EscrowError::InsufficientFunds));
    assert_eq!(m.deposit(&mut p, 4, 60), Ok(()));
    assert_eq!(p.vault_balance(k(1), 4), Some(60));
    assert_eq!(p.balance(k(1), k(10)), 40);
    let other = Make { maker: k(1), mint_a: k(30), mint_b: k(20) };
    assert_eq!(other.deposit(&mut p, 4, 1), Err(EscrowError::MintMismatch));
}

#[test]
fn transfer_to_maker_then_take_and_close() {
    let mut p = EscrowProgram::new(k(99));
    assert_eq!(p.mint_to(k(1), k(10), 100), Ok(()));
    assert_eq!(p.mint_to(k(2), k(20), 30), Ok(()));
    let m = Make { maker: k(1), mint_a: k(10), mint_b: k(20) };
    assert_eq!(m.init_escrow(&mut p, 4, 7), Ok(()));
    assert_eq!(m.deposit(&mut p, 4, 60), Ok(()));
    let t = Take { taker: k(2), maker: k(1), mint_a: k(10), mint_b: k(20), seed: 4 };
    assert_eq!(t.transfer_to_maker(&mut p, 31), Err(EscrowError::InsufficientFunds));
    assert_eq!(t.transfer_to_maker(&mut p, 30), Ok(()));
    assert_eq!(p.balance(k(1), k(20)), 30);
    assert_eq!(p.balance(k(2), k(20)), 0);
    assert_eq!(t.take_and_close(&mut p), Ok(()));
    assert_eq!(p.balance(k(2), k(10)), 60);
    assert_eq!(t.take_and_close(&mut p), Err(EscrowError::NotFound));
}

#[test]
fn refund_and_close_checks_signer() {
    let mut p = EscrowProgram::new(k(99));
    assert_eq!(p.mint_to(k(1), k(10), 100), Ok(()));
    let m = Make { maker: k(1), mint_a: k(10), mint_b: k(20) };
    assert_eq!(m.init_escrow(&mut p, 4, 7), Ok(()));
    assert_eq!(m.deposit(&mut p, 4, 60), Ok(()));
    let r = Refund { maker: k(2), mint_a: k(10), escrow_maker: k(1), seed: 4 };
    assert_eq!(r.refund_and_close(&mut p), Err(EscrowError::Unauthorized));
    let r = Refund { maker: k(1), mint_a: k(10), escrow_maker: k(1), seed: 4 };
    assert_eq!(r.refund_and_close(&mut p), Ok(()));
    assert_eq!(p.balance(k(1), k(10)), 100);
    assert_eq!(p.vault_balance(k(1), 4), None);
}

#[test]
fn ledger_transfer_moves_and_refuses() {
    let mut l = Ledger::new();
    l.credit(k(1), k(5), 10);
    assert_eq!(l.transfer(k(5), k(1), k(2), 4), Ok(()));
    assert_eq!(l.balance(k(1), k(5)), 6);
    assert_eq!(l.balance(k(2), k(5)), 4);
    assert_eq!(l.transfer(k(5), k(1), k(2), 7), Err(EscrowError::InsufficientFunds));
    assert_eq!(l.transfer(k(5), k(1), k(1), 6), Ok(()));
    assert_eq!(l.balance(k(1), k(5)), 6);
    l.credit(k(3), k(5), u64::MAX);
    assert_eq!(l.transfer(k(5), k(1), k(3), 1), Err(EscrowError::Overflow));
    l.debit(k(1), k(5), 6);
    assert_eq!(l.balance(k(1), k(5)), 0);
}
