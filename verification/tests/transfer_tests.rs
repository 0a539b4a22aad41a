use blockledger::balance::{Balances, TransferError};
use blockledger::chain::{create_genesis_block, Block};
use blockledger::transfer::transfer;

fn fresh_ledger() -> (Balances, Vec<Block>) {
    (Balances::new(), vec![create_genesis_block()])
}

#[test]
fn balances_start_at_zero() {
    let balances = Balances::new();
    assert_eq!(balances.get("anyone"), 0);
}

#[test]
fn credit_then_get() {
    let mut balances = Balances::new();
    assert!(balances.credit("alice", 100).is_ok());
    assert_eq!(balances.get("alice"), 100);
    assert_eq!(balances.get("bob"), 0);
    assert!(balances.credit("alice", 20).is_ok());
    assert_eq!(balances.get("alice"), 120);
}

#[test]
fn credit_overflow_is_rejected_and_changes_nothing() {
    let mut balances = Balances::new();
    assert!(balances.credit("alice", u64::MAX).is_ok());
    assert_eq!(balances.credit("alice", 1), Err(TransferError::AmountOverflow));
    assert_eq!(balances.get("alice"), u64::MAX);
}

#[test]
fn debit_below_balance() {
    let mut balances = Balances::new();
    assert!(balances.credit("alice", 100).is_ok());
    assert!(balances.debit("alice", 40).is_ok());
    assert_eq!(balances.get("alice"), 60);
}

#[test]
fn debit_to_exactly_zero() {
    let mut balances = Balances::new();
    assert!(balances.credit("alice", 100).is_ok());
    assert!(balances.debit("alice", 100).is_ok());
    assert_eq!(balances.get("alice"), 0);
}

#[test]
fn debit_beyond_balance_is_rejected() {
    let mut balances = Balances::new();
    assert!(balances.credit("alice", 50).is_ok());
    assert_eq!(balances.debit("alice", 51), Err(TransferError::InsufficientFunds));
    assert_eq!(balances.get("alice"), 50);
}

#[test]
fn debit_from_unknown_address_is_rejected() {
    let mut balances = Balances::new();
    assert_eq!(balances.debit("ghost", 1), Err(TransferError::InsufficientFunds));
}

#[test]
fn successful_transfer_moves_funds_and_appends_a_block() {
    let (mut balances, mut chain) = fresh_ledger();
    balances.credit("alice", 100).unwrap();
    let prior_hash = chain.last().unwrap().hash.clone();
    let result = transfer(&mut balances, &mut chain, "alice", "bob", "40");
    let tx = result.expect("transfer should succeed");
    assert_eq!(tx.from, "alice");
    assert_eq!(tx.to, "bob");
    assert_eq!(tx.amount, 40);
    assert_eq!(balances.get("alice"), 60);
    assert_eq!(balances.get("bob"), 40);
    assert_eq!(chain.len(), 2);
    let block = chain.last().unwrap();
    assert_eq!(block.previous_hash, prior_hash);
    assert_eq!(block.index, 1);
    assert_eq!(block.transactions.len(), 1);
    assert_eq!(block.transactions[0].from, "alice");
    assert_eq!(block.transactions[0].to, "bob");
    assert_eq!(block.transactions[0].amount, 40);
}

#[test]
fn insufficient_funds_changes_nothing() {
    let (mut balances, mut chain) = fresh_ledger();
    balances.credit("alice", 50).unwrap();
    balances.credit("bob", 7).unwrap();
    let result = transfer(&mut balances, &mut chain, "alice", "bob", "100");
    assert_eq!(result.unwrap_err(), TransferError::InsufficientFunds);
    assert_eq!(balances.get("alice"), 50);
    assert_eq!(balances.get("bob"), 7);
    assert_eq!(chain.len(), 1);
}

#[test]
fn unknown_sender_is_insufficient() {
    let (mut balances, mut chain) = fresh_ledger();
    let result = transfer(&mut balances, &mut chain, "ghost", "bob", "1");
    assert_eq!(result.unwrap_err(), TransferError::InsufficientFunds);
    assert_eq!(chain.len(), 1);
}

#[test]
fn malformed_amount_is_rejected() {
    let (mut balances, mut chain) = fresh_ledger();
    balances.credit("alice", 50).unwrap();
    let result = transfer(&mut balances, &mut chain, "alice", "bob", "abc");
    assert_eq!(result.unwrap_err(), TransferError::InvalidAmount);
    assert_eq!(balances.get("alice"), 50);
    assert_eq!(chain.len(), 1);
}

#[test]
fn recipient_overflow_is_rejected_before_any_mutation() {
    let (mut balances, mut chain) = fresh_ledger();
    balances.credit("alice", 10).unwrap();
    balances.credit("bob", u64::MAX).unwrap();
    let result = transfer(&mut balances, &mut chain, "alice", "bob", "1");
    assert_eq!(result.unwrap_err(), TransferError::AmountOverflow);
    assert_eq!(balances.get("alice"), 10);
    assert_eq!(balances.get("bob"), u64::MAX);
    assert_eq!(chain.len(), 1);
}

#[test]
fn self_transfer_keeps_the_balance() {
    let (mut balances, mut chain) = fresh_ledger();
    balances.credit("alice", 100).unwrap();
    let result = transfer(&mut balances, &mut chain, "alice", "alice", "40");
    assert!(result.is_ok());
    assert_eq!(balances.get("alice"), 100);
    assert_eq!(chain.len(), 2);
}

#[test]
fn totals_are_conserved_across_transfers() {
    let (mut balances, mut chain) = fresh_ledger();
    balances.credit("a", 100).unwrap();
    balances.credit("b", 30).unwrap();
    let total_before = balances.get("a") + balances.get("b") + balances.get("c");
    transfer(&mut balances, &mut chain, "a", "b", "25").unwrap();
    transfer(&mut balances, &mut chain, "b", "c", "55").unwrap();
    transfer(&mut balances, &mut chain, "c", "a", "5").unwrap();
    let total_after = balances.get("a") + balances.get("b") + balances.get("c");
    assert_eq!(total_before, total_after);
    assert_eq!(chain.len(), 4);
}
