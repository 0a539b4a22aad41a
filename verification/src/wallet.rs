//! The account registry: addresses mapped to the key pairs that derived
//! them.
use vstd::prelude::*;
use crate::user::{KeyGenError, User};

verus! {

/// The in-memory account registry. Address collisions are not checked:
/// they are treated as impossible.
pub struct WalletSystem {
    pub users: Vec<User>,
}

impl WalletSystem {
    /// Every registered account carries a well-formed key pair.
    pub open spec fn wf(self) -> bool {
        forall|i: int| 0 <= i < self.users@.len() ==> (#[trigger] self.users@[i]).wf()
    }

    /// An empty registry.
    pub fn new() -> (r: WalletSystem)
        ensures
            r.wf(),
            r.users@.len() == 0,
    {
        WalletSystem { users: Vec::new() }
    }

    /// Generates a key pair, registers it, and returns its address. The
    /// registry grows by exactly that one entry. Fails only on entropy
    /// failure, which leaves the registry unchanged.
    pub fn create_account(&mut self) -> (r: Result<String, KeyGenError>)
        requires
            old(self).wf(),
        ensures
            final(self).wf(),
            match r {
                Ok(address) => {
                    &&& final(self).users@.len() == old(self).users@.len() + 1
                    &&& final(self).users@.drop_last() == old(self).users@
                    &&& final(self).users@.last().wf()
                    &&& final(self).users@.last().address@ == address@
                    &&& address@.len() == 64
                },
                Err(e) => e == KeyGenError::EntropyFailure && *final(self) == *old(self),
            },
    {
        match User::new() {
            Ok(user) => {
                let address = user.address.clone();
                let ghost before = self.users@;
                self.users.push(user);
                proof {
                    assert(final(self).users@.drop_last() =~= before);
                }
                Ok(address)
            },
            Err(e) => Err(e),
        }
    }

    /// The registered account under this address, if any.
    pub fn get_user(&self, address: &str) -> (r: Option<&User>)
        ensures
            match r {
                Some(u) => u.address@ == address@ && exists|i: int|
                    0 <= i < self.users@.len() && self.users@[i] == *u,
                None => forall|i: int|
                    0 <= i < self.users@.len() ==> (#[trigger] self.users@[i]).address@
                        != address@,
            },
    {
        let key = address.to_owned();
        let mut i: usize = 0;
        while i < self.users.len()
            invariant
                i <= self.users@.len(),
                key@ == address@,
                forall|j: int|
                    0 <= j < i ==> (#[trigger] self.users@[j]).address@ != address@,
            decreases self.users@.len() - i,
        {
            if self.users[i].address.eq(&key) {
                return Some(&self.users[i]);
            }
            i = i + 1;
        }
        None
    }

    /// All registered addresses, in registration order. No ordering is
    /// part of the contract.
    pub fn list_addresses(&self) -> (r: Vec<String>)
        ensures
            r@.len() == self.users@.len(),
            forall|i: int| 0 <= i < r@.len() ==> (#[trigger] r@[i])@ == self.users@[i].address@,
    {
        let mut result: Vec<String> = Vec::new();
        let mut i: usize = 0;
        while i < self.users.len()
            invariant
                i <= self.users@.len(),
                result@.len() == i,
                forall|j: int|
                    0 <= j < i ==> (#[trigger] result@[j])@ == self.users@[j].address@,
            decreases self.users@.len() - i,
        {
            result.push(self.users[i].address.clone());
            i = i + 1;
        }
        result
    }
}

} // verus!
