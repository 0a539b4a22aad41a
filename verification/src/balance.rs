//! The live per-address balance table, distinct from the chain.
use vstd::prelude::*;

verus! {

/// Why a transfer was rejected.
#[derive(Clone, Copy, Debug, PartialEq, Eq, Structural)]
pub enum TransferError {
    /// The amount text is not a well-formed unsigned decimal number.
    InvalidAmount,
    /// The debit exceeds the sender's balance (an unknown sender has
    /// balance 0).
    InsufficientFunds,
    /// The credit would push the recipient's balance past `u64::MAX`.
    /// Overflow is rejected, never wrapped, and checked before any
    /// mutation, so a rejected transfer changes nothing.
    AmountOverflow,
}

/// The balance a key sequence assigns to an address; 0 when the address
/// has no entry.
pub open spec fn spec_balance(s: Seq<(String, u64)>, address: Seq<char>) -> u64
    decreases s.len(),
{
    if s.len() == 0 {
        0u64
    } else if s.last().0@ == address {
        s.last().1
    } else {
        spec_balance(s.drop_last(), address)
    }
}

/// The sum of all balances held in the table.
pub open spec fn spec_total(s: Seq<(String, u64)>) -> nat
    decreases s.len(),
{
    if s.len() == 0 {
        0
    } else {
        spec_total(s.drop_last()) + s.last().1 as nat
    }
}

/// Each address appears at most once.
pub open spec fn distinct_keys(s: Seq<(String, u64)>) -> bool {
    forall|j: int, k: int| 0 <= j < k < s.len() ==> (#[trigger] s[j]).0@ != (#[trigger] s[k]).0@
}

/// Mapping from address to unsigned 64-bit balance, default 0 for
/// unknown addresses.
pub struct Balances {
    entries: Vec<(String, u64)>,
}

impl Balances {
    /// Each address has at most one entry.
    pub closed spec fn wf(self) -> bool {
        distinct_keys(self.entries@)
    }

    /// The balance of an address, 0 if unknown.
    pub closed spec fn balance(self, address: Seq<char>) -> u64 {
        spec_balance(self.entries@, address)
    }

    /// The sum of all balances.
    pub closed spec fn total(self) -> nat {
        spec_total(self.entries@)
    }

    /// An empty table: every address holds 0.
    pub fn new() -> (r: Balances)
        ensures
            r.wf(),
            r.total() == 0,
            forall|a: Seq<char>| r.balance(a) == 0,
    {
        Balances { entries: Vec::new() }
    }

    /// The index of the entry for `address`, if there is one.
    fn find(&self, address: &String) -> (r: Option<usize>)
        ensures
            match r {
                Some(i) => i < self.entries@.len() && self.entries@[i as int].0@ == address@,
                None => forall|j: int|
                    0 <= j < self.entries@.len() ==> (#[trigger] self.entries@[j]).0@ != address@,
            },
    {
        let mut i: usize = 0;
        while i < self.entries.len()
            invariant
                i <= self.entries@.len(),
                forall|j: int| 0 <= j < i ==> (#[trigger] self.entries@[j]).0@ != address@,
            decreases self.entries@.len() - i,
        {
            if self.entries[i].0.eq(address) {
                return Some(i);
            }
            i = i + 1;
        }
        None
    }

    /// The balance of an address, 0 if unknown.
    pub fn get(&self, address: &str) -> (r: u64)
        requires
            self.wf(),
        ensures
            r == self.balance(address@),
    {
        let key = address.to_owned();
        match self.find(&key) {
            Some(i) => {
                proof {
                    lemma_balance_found(self.entries@, i as int, address@);
                }
                self.entries[i].1
            },
            None => {
                proof {
                    lemma_balance_absent(self.entries@, address@);
                }
                0
            },
        }
    }

    /// Adds `amount` to the address's balance, creating the entry if
    /// absent. Rejects with `AmountOverflow`, changing nothing, exactly
    /// when the new balance would not fit in a `u64`.
    pub fn credit(&mut self, address: &str, amount: u64) -> (r: Result<(), TransferError>)
        requires
            old(self).wf(),
        ensures
            final(self).wf(),
            r is Ok <==> old(self).balance(address@) + amount <= u64::MAX,
            match r {
                Ok(()) => {
                    &&& final(self).balance(address@) == old(self).balance(address@) + amount
                    &&& forall|a: Seq<char>|
                        a != address@ ==> final(self).balance(a) == old(self).balance(a)
                    &&& final(self).total() == old(self).total() + amount
                },
                Err(e) => e == TransferError::AmountOverflow && *final(self) == *old(self),
            },
    {
        let key = address.to_owned();
        match self.find(&key) {
            Some(i) => {
                proof {
                    lemma_balance_found(self.entries@, i as int, address@);
                }
                let current = self.entries[i].1;
                if amount <= u64::MAX - current {
                    let ghost before = self.entries@;
                    self.entries[i] = (key, current + amount);
                    proof {
                        lemma_balance_update(before, i as int, self.entries@[i as int]);
                    }
                    Ok(())
                } else {
                    Err(TransferError::AmountOverflow)
                }
            },
            None => {
                proof {
                    lemma_balance_absent(self.entries@, address@);
                }
                let ghost before = self.entries@;
                self.entries.push((key, amount));
                proof {
                    lemma_balance_push(before, self.entries@.last());
                }
                Ok(())
            },
        }
    }

    /// Removes `amount` from the address's balance. Rejects with
    /// `InsufficientFunds`, changing nothing, exactly when the balance is
    /// below `amount`; an unknown address has balance 0. A balance never
    /// goes below zero.
    pub fn debit(&mut self, address: &str, amount: u64) -> (r: Result<(), TransferError>)
        requires
            old(self).wf(),
        ensures
            final(self).wf(),
            r is Ok <==> amount <= old(self).balance(address@),
            match r {
                Ok(()) => {
                    &&& final(self).balance(address@) == old(self).balance(address@) - amount
                    &&& forall|a: Seq<char>|
                        a != address@ ==> final(self).balance(a) == old(self).balance(a)
                    &&& final(self).total() == old(self).total() - amount
                },
                Err(e) => e == TransferError::InsufficientFunds && *final(self) == *old(self),
            },
    {
        let key = address.to_owned();
        match self.find(&key) {
            Some(i) => {
                proof {
                    lemma_balance_found(self.entries@, i as int, address@);
                }
                let current = self.entries[i].1;
                if amount <= current {
                    let ghost before = self.entries@;
                    self.entries[i] = (key, current - amount);
                    proof {
                        lemma_balance_update(before, i as int, self.entries@[i as int]);
                    }
                    Ok(())
                } else {
                    Err(TransferError::InsufficientFunds)
                }
            },
            None => {
                proof {
                    lemma_balance_absent(self.entries@, address@);
                }
                if amount == 0 {
                    Ok(())
                } else {
                    Err(TransferError::InsufficientFunds)
                }
            },
        }
    }
}

/// With distinct keys, the balance of the address at entry `i` is that
/// entry's amount.
proof fn lemma_balance_found(s: Seq<(String, u64)>, i: int, address: Seq<char>)
    requires
        distinct_keys(s),
        0 <= i < s.len(),
        s[i].0@ == address,
    ensures
        spec_balance(s, address) == s[i].1,
    decreases s.len(),
{
    if i == s.len() - 1 {
    } else {
        assert(s.last().0@ != address);
        assert(s.drop_last()[i] == s[i]);
        lemma_balance_found(s.drop_last(), i, address);
    }
}

/// An address with no entry has balance 0.
proof fn lemma_balance_absent(s: Seq<(String, u64)>, address: Seq<char>)
    requires
        forall|j: int| 0 <= j < s.len() ==> (#[trigger] s[j]).0@ != address,
    ensures
        spec_balance(s, address) == 0,
    decreases s.len(),
{
    if s.len() == 0 {
    } else {
        assert(s[s.len() - 1].0@ != address);
        assert(forall|j: int|
            0 <= j < s.drop_last().len() ==> (#[trigger] s.drop_last()[j]).0@ != address);
        lemma_balance_absent(s.drop_last(), address);
    }
}

/// Replacing entry `i` with one under the same address changes only that
/// address's balance, and the total by the difference.
proof fn lemma_balance_update(s: Seq<(String, u64)>, i: int, e: (String, u64))
    requires
        distinct_keys(s),
        0 <= i < s.len(),
        e.0@ == s[i].0@,
    ensures
        distinct_keys(s.update(i, e)),
        spec_balance(s.update(i, e), e.0@) == e.1,
        forall|a: Seq<char>| a != e.0@ ==> spec_balance(s.update(i, e), a) == spec_balance(s, a),
        spec_total(s.update(i, e)) == spec_total(s) - s[i].1 + e.1,
    decreases s.len(),
{
    let s2 = s.update(i, e);
    assert(distinct_keys(s2)) by {
        assert(forall|j: int, k: int|
            0 <= j < k < s2.len() ==> (#[trigger] s2[j]).0@ != (#[trigger] s2[k]).0@) by {
            assert(forall|j: int| 0 <= j < s2.len() ==> (#[trigger] s2[j]).0@ == s[j].0@);
        }
    }
    if i == s.len() - 1 {
        assert(s2.drop_last() =~= s.drop_last());
        assert(s2.last() == e);
        assert(s.last().0@ == e.0@);
        assert forall|a: Seq<char>| a != e.0@ implies spec_balance(s2, a) == spec_balance(
            s,
            a,
        ) by {
            assert(spec_balance(s2, a) == spec_balance(s2.drop_last(), a));
            assert(spec_balance(s, a) == spec_balance(s.drop_last(), a));
        }
    } else {
        assert(s2.drop_last() =~= s.drop_last().update(i, e));
        assert(s2.last() == s.last());
        assert(s.drop_last()[i] == s[i]);
        lemma_balance_update(s.drop_last(), i, e);
        assert(s.last().0@ != e.0@);
        assert forall|a: Seq<char>| a != e.0@ implies spec_balance(s2, a) == spec_balance(
            s,
            a,
        ) by {
            if s.last().0@ == a {
                assert(spec_balance(s2, a) == s2.last().1);
                assert(spec_balance(s, a) == s.last().1);
            } else {
                assert(spec_balance(s2, a) == spec_balance(s2.drop_last(), a));
                assert(spec_balance(s, a) == spec_balance(s.drop_last(), a));
            }
        }
    }
}

/// Appending an entry under a fresh address sets that address's balance
/// and adds its amount to the total.
proof fn lemma_balance_push(s: Seq<(String, u64)>, e: (String, u64))
    requires
        distinct_keys(s),
        forall|j: int| 0 <= j < s.len() ==> (#[trigger] s[j]).0@ != e.0@,
    ensures
        distinct_keys(s.push(e)),
        spec_balance(s.push(e), e.0@) == e.1,
        forall|a: Seq<char>| a != e.0@ ==> spec_balance(s.push(e), a) == spec_balance(s, a),
        spec_total(s.push(e)) == spec_total(s) + e.1,
{
    let s2 = s.push(e);
    assert(s2.drop_last() =~= s);
    assert(s2.last() == e);
    lemma_balance_absent(s, e.0@);
}

} // verus!
