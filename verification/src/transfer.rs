//! The composite transfer operation: validate, debit, credit, and record
//! the transaction in a new block.
use vstd::prelude::*;
use crate::balance::{Balances, TransferError};
use crate::chain::{add_block, chain_valid, Block, Transaction};
use crate::numfmt::{parse_u64, spec_parse_u64};

verus! {

/// How a transfer request must be decided: `InvalidAmount` when the text
/// does not parse, `InsufficientFunds` when the sender's balance is below
/// the amount (an unknown sender has balance 0), `AmountOverflow` when
/// the recipient's balance would pass `u64::MAX`; otherwise the parsed
/// amount is moved. All checks precede any mutation, so a rejected
/// transfer changes nothing.
pub open spec fn transfer_outcome(
    balances: Balances,
    from: Seq<char>,
    to: Seq<char>,
    amount_text: Seq<char>,
) -> Result<u64, TransferError> {
    match spec_parse_u64(amount_text) {
        None => Err(TransferError::InvalidAmount),
        Some(amount) => if amount > balances.balance(from) {
            Err(TransferError::InsufficientFunds)
        } else if from != to && balances.balance(to) + amount > u64::MAX {
            Err(TransferError::AmountOverflow)
        } else {
            Ok(amount)
        },
    }
}

/// Parses the amount, debits the sender, credits the recipient, and
/// appends one block holding exactly the resulting transaction. On any
/// rejection both the balance table and the chain are left unchanged; on
/// success the sum of all balances is conserved.
pub fn transfer(
    balances: &mut Balances,
    chain: &mut Vec<Block>,
    from: &str,
    to: &str,
    amount_text: &str,
) -> (r: Result<Transaction, TransferError>)
    requires
        old(balances).wf(),
        old(chain)@.len() > 0,
        old(chain)@.last().index < u64::MAX,
    ensures
        final(balances).wf(),
        match r {
            Ok(tx) => {
                &&& transfer_outcome(*old(balances), from@, to@, amount_text@) == Ok::<
                    u64,
                    TransferError,
                >(tx.amount)
                &&& tx.from@ == from@
                &&& tx.to@ == to@
                &&& from@ != to@ ==> final(balances).balance(from@) == old(balances).balance(from@)
                    - tx.amount && final(balances).balance(to@) == old(balances).balance(to@)
                    + tx.amount
                &&& from@ == to@ ==> final(balances).balance(from@) == old(balances).balance(from@)
                &&& forall|a: Seq<char>|
                    a != from@ && a != to@ ==> final(balances).balance(a) == old(balances).balance(
                        a,
                    )
                &&& final(balances).total() == old(balances).total()
                &&& final(chain)@.len() == old(chain)@.len() + 1
                &&& final(chain)@.drop_last() == old(chain)@
                &&& final(chain)@.last().wf()
                &&& final(chain)@.last().index == old(chain)@.last().index + 1
                &&& final(chain)@.last().previous_hash@ == old(chain)@.last().hash@
                &&& final(chain)@.last().transactions@.len() == 1
                &&& final(chain)@.last().transactions@[0].from@ == from@
                &&& final(chain)@.last().transactions@[0].to@ == to@
                &&& final(chain)@.last().transactions@[0].amount == tx.amount
                &&& (chain_valid(old(chain)@) ==> chain_valid(final(chain)@))
            },
            Err(e) => {
                &&& transfer_outcome(*old(balances), from@, to@, amount_text@) == Err::<
                    u64,
                    TransferError,
                >(e)
                &&& *final(balances) == *old(balances)
                &&& final(chain)@ == old(chain)@
            },
        },
{
    let amount = match parse_u64(amount_text) {
        Some(a) => a,
        None => {
            return Err(TransferError::InvalidAmount);
        },
    };
    let balance_from = balances.get(from);
    if amount > balance_from {
        return Err(TransferError::InsufficientFunds);
    }
    let from_key = from.to_owned();
    let to_key = to.to_owned();
    let same = from_key.eq(&to_key);
    if !same {
        let balance_to = balances.get(to);
        if balance_to > u64::MAX - amount {
            return Err(TransferError::AmountOverflow);
        }
    }
    match balances.debit(from, amount) {
        Ok(()) => {},
        Err(_) => {
            proof {
                assert(false);
            }
            return Err(TransferError::InsufficientFunds);
        },
    }
    match balances.credit(to, amount) {
        Ok(()) => {},
        Err(_) => {
            proof {
                assert(false);
            }
            return Err(TransferError::AmountOverflow);
        },
    }
    let mut block_transactions: Vec<Transaction> = Vec::new();
    block_transactions.push(Transaction { from: from.to_owned(), to: to.to_owned(), amount });
    add_block(chain, block_transactions);
    Ok(Transaction { from: from_key, to: to_key, amount })
}

} // verus!
