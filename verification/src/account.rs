//! Accounts hold tokens.

use vstd::prelude::*;

verus! {

/// Amount is a number of tokens.
pub type Amount = u64;

/// An account can hold tokens.
#[derive(Debug)]
pub struct Account {
    /// Number of tokens held.
    pub tokens: Amount,
}

impl Account {
    /// A fresh account, holding no tokens.
    pub fn new() -> (account: Self)
        ensures
            account == (Account { tokens: 0 }),
    {
        Account { tokens: 0 }
    }
}

impl Default for Account {
    fn default() -> (account: Self)
        ensures
            account == (Account { tokens: 0 }),
    {
        Account::new()
    }
}

impl Clone for Account {
    fn clone(&self) -> (account: Self)
        ensures
            account == *self,
    {
        Account { tokens: self.tokens }
    }
}

} // verus!
