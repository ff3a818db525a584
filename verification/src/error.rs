//! Why the ledger refuses a block, a transaction or an account operation.

use vstd::prelude::*;
use vstd::string::StringExecFns;

verus! {

/// Every failure the ledger can report. None is fatal: the chain and its
/// accounts are as they were before the refused submission.
#[derive(Debug, PartialEq, Eq)]
pub enum Error {
    /// The block carries no hash, or one that its transactions do not give.
    InvalidHash,
    /// The block does not link to the last block of the chain.
    InvalidPreviousHash,
    /// No account has the identifier that was looked up.
    AccountNotFound,
    /// An account with that identifier is registered already.
    AccountAlreadyExists,
    /// A mint names a sender: tokens are minted by nobody.
    UsersCannotMint,
    /// A mint was attempted on a chain that has blocks.
    MintAfterGenesis,
    /// A transfer names no sender.
    MissingFromAccount,
    /// The sender holds fewer tokens than the transfer moves.
    NotEnoughTokens,
    /// The receiving balance would pass the largest amount.
    TooManyTokens,
    /// The transaction at `index` of a submitted block failed with `cause`.
    Transaction { index: usize, cause: Box<Error> },
}

/// The character of one decimal digit.
pub open spec fn digit_char(d: nat) -> char
    recommends
        d < 10,
{
    if d == 0 {
        '0'
    } else if d == 1 {
        '1'
    } else if d == 2 {
        '2'
    } else if d == 3 {
        '3'
    } else if d == 4 {
        '4'
    } else if d == 5 {
        '5'
    } else if d == 6 {
        '6'
    } else if d == 7 {
        '7'
    } else if d == 8 {
        '8'
    } else {
        '9'
    }
}

/// A number in decimal, without leading zeros.
pub open spec fn decimal_text(n: nat) -> Seq<char>
    decreases n,
{
    if n < 10 {
        seq![digit_char(n)]
    } else {
        decimal_text(n / 10).push(digit_char(n % 10))
    }
}

fn digit(d: usize) -> (text: &'static str)
    requires
        d < 10,
    ensures
        text@ == seq![digit_char(d as nat)],
{
    proof {
        reveal_strlit("0");
        reveal_strlit("1");
        reveal_strlit("2");
        reveal_strlit("3");
        reveal_strlit("4");
        reveal_strlit("5");
        reveal_strlit("6");
        reveal_strlit("7");
        reveal_strlit("8");
        reveal_strlit("9");
    }
    let text = if d == 0 {
        "0"
    } else if d == 1 {
        "1"
    } else if d == 2 {
        "2"
    } else if d == 3 {
        "3"
    } else if d == 4 {
        "4"
    } else if d == 5 {
        "5"
    } else if d == 6 {
        "6"
    } else if d == 7 {
        "7"
    } else if d == 8 {
        "8"
    } else {
        "9"
    };
    assert(text@ =~= seq![digit_char(d as nat)]);
    text
}

/// Writes a number in decimal.
pub fn decimal(n: usize) -> (text: String)
    ensures
        text@ == decimal_text(n as nat),
    decreases n,
{
    if n < 10 {
        digit(n).to_string()
    } else {
        let mut text = decimal(n / 10);
        text.append(digit(n % 10));
        assert(text@ =~= decimal_text(n as nat));
        text
    }
}

impl Clone for Error {
    fn clone(&self) -> (error: Self)
        ensures
            error == *self,
        decreases self,
    {
        match self {
            Error::InvalidHash => Error::InvalidHash,
            Error::InvalidPreviousHash => Error::InvalidPreviousHash,
            Error::AccountNotFound => Error::AccountNotFound,
            Error::AccountAlreadyExists => Error::AccountAlreadyExists,
            Error::UsersCannotMint => Error::UsersCannotMint,
            Error::MintAfterGenesis => Error::MintAfterGenesis,
            Error::MissingFromAccount => Error::MissingFromAccount,
            Error::NotEnoughTokens => Error::NotEnoughTokens,
            Error::TooManyTokens => Error::TooManyTokens,
            Error::Transaction { index, cause } => {
                let inner: &Error = cause;
                Error::Transaction { index: *index, cause: Box::new(inner.clone()) }
            },
        }
    }
}

impl Error {
    /// The text of `message`.
    pub open spec fn message_text(self) -> Seq<char>
        decreases self,
    {
        match self {
            Error::InvalidHash => "invalid hash"@,
            Error::InvalidPreviousHash => "invalid previous hash"@,
            Error::AccountNotFound => "account doesn't exist"@,
            Error::AccountAlreadyExists => "account already exists"@,
            Error::UsersCannotMint => "users cannot mint tokens"@,
            Error::MintAfterGenesis => "cannot mint tokens after genesis"@,
            Error::MissingFromAccount => "missing from account"@,
            Error::NotEnoughTokens => "not enough tokens"@,
            Error::TooManyTokens => "too many tokens"@,
            Error::Transaction { index, cause } => "err \""@ + cause.message_text()
                + "\" on transaction "@ + decimal_text(index as nat),
        }
    }

    /// A short description of the failure, for people to read.
    pub fn message(&self) -> (text: String)
        ensures
            text@ == self.message_text(),
        decreases self,
    {
        match self {
            Error::InvalidHash => "invalid hash".to_string(),
            Error::InvalidPreviousHash => "invalid previous hash".to_string(),
            Error::AccountNotFound => "account doesn't exist".to_string(),
            Error::AccountAlreadyExists => "account already exists".to_string(),
            Error::UsersCannotMint => "users cannot mint tokens".to_string(),
            Error::MintAfterGenesis => "cannot mint tokens after genesis".to_string(),
            Error::MissingFromAccount => "missing from account".to_string(),
            Error::NotEnoughTokens => "not enough tokens".to_string(),
            Error::TooManyTokens => "too many tokens".to_string(),
            Error::Transaction { index, cause } => {
                let mut text = "err \"".to_string();
                text.append(cause.message().as_str());
                text.append("\" on transaction ");
                text.append(decimal(*index).as_str());
                text
            },
        }
    }
}

} // verus!
