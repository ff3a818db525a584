//! The world state as transactions see it.

use vstd::prelude::*;
use crate::account::Account;
use crate::error::Error;
use crate::id::Id;

verus! {

/// Snapshot of the world, not to have to rebuild it every time we query it.
///
/// A world is modelled by its accounts, a map from identifiers to accounts,
/// and by whether it is still in its genesis. Whatever else an implementation
/// holds is its `rest`, which no operation of this trait changes.
///
/// An implementation that is to be verified defines the three model
/// functions, and its operations are then held to the contracts below. The
/// bodies given here only stand in where an implementation defines none, as
/// one written outside of Verus does: they say nothing of the world.
pub trait WorldState {
    /// What the world holds besides its accounts.
    type Rest;

    /// The accounts registered in the world, by identifier.
    open spec fn accounts(&self) -> Map<Seq<char>, Account> {
        arbitrary()
    }

    /// Whether the world is in its genesis.
    open spec fn genesis(&self) -> bool {
        arbitrary()
    }

    /// Everything of the world that is not an account.
    open spec fn rest(&self) -> Self::Rest {
        arbitrary()
    }

    /// Return an account that exists in the world, by its ID.
    fn get_account_by_id(&self, id: &Id) -> (res: Result<&Account, Error>)
        ensures
            match res {
                Ok(account) => self.accounts().contains_key(id@) && *account
                    == self.accounts()[id@],
                Err(e) => e == Error::AccountNotFound && !self.accounts().contains_key(id@),
            },
    ;

    /// Return a mutable reference to an account that exists in the world, by
    /// its ID. What is written through the reference becomes the account.
    fn get_account_by_id_mut(&mut self, id: &Id) -> (res: Result<&mut Account, Error>)
        ensures
            final(self).genesis() == old(self).genesis(),
            final(self).rest() == old(self).rest(),
            match res {
                Ok(account) => {
                    &&& old(self).accounts().contains_key(id@)
                    &&& *account == old(self).accounts()[id@]
                    &&& final(self).accounts() == old(self).accounts().insert(
                        id@,
                        *final(account),
                    )
                },
                Err(e) => {
                    &&& e == Error::AccountNotFound
                    &&& !old(self).accounts().contains_key(id@)
                    &&& final(self).accounts() == old(self).accounts()
                },
            },
    ;

    /// Register a new account in the world, holding no tokens. An identifier
    /// that is taken already is refused, and the world stays as it is.
    fn add_account(&mut self, id: Id) -> (res: Result<(), Error>)
        ensures
            final(self).genesis() == old(self).genesis(),
            final(self).rest() == old(self).rest(),
            res == if old(self).accounts().contains_key(id@) {
                Err::<(), Error>(Error::AccountAlreadyExists)
            } else {
                Ok::<(), Error>(())
            },
            final(self).accounts() == if old(self).accounts().contains_key(id@) {
                old(self).accounts()
            } else {
                old(self).accounts().insert(id@, Account { tokens: 0 })
            },
    ;

    /// Is the world in its genesis, i.e. are we currently creating that world?
    fn is_genesis(&self) -> (genesis: bool)
        ensures
            genesis == self.genesis(),
    ;
}

} // verus!
