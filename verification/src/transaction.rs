//! Transactions: what they hold, how they hash, and what they do to a world.

use vstd::prelude::*;
use vstd::bytes::{spec_u32_to_le_bytes, spec_u64_to_le_bytes};
use crate::account::{Account, Amount};
use crate::digest::{blake3_hash, hash_bytes, DIGEST_LEN};
use crate::encoding::{
    id_bytes, id_fits, lemma_id_delimited, lemma_optional_id_delimited, lemma_same_parts,
    lemma_u32_delimited, lemma_u64_delimited, optional_id_bytes, optional_id_fits, put_id,
    put_optional_id, put_u32, put_u64,
};
use crate::error::Error;
use crate::id::Id;
use crate::time::Timestamp;
use crate::world::WorldState;
use crate::Nonce;

verus! {

/// The cryptographic signature of a transaction.
pub type Signature = String;

/// A transaction record is describing the action a transaction
/// executes against the Blockchain.
#[derive(Debug)]
pub enum TransactionRecord {
    /// Creates a new account from a public key.
    CreateUserAccount(Id),
    /// Sends tokens to another account.
    SendTokens {
        /// ID of the account receiving the tokens.
        to: Id,
        /// Number of tokens to send.
        amount: Amount,
    },
    /// Create new tokens.
    MintTokens {
        /// ID of the account receiving the tokens.
        to: Id,
        /// Number of tokens to send.
        amount: Amount,
    },
}

/// A record with its identifiers as sequences of characters.
pub enum RecordView {
    /// Registers the account of that identifier.
    CreateUserAccount(Seq<char>),
    /// Moves `amount` tokens from the sender to `to`.
    SendTokens { to: Seq<char>, amount: Amount },
    /// Credits `to` with `amount` new tokens.
    MintTokens { to: Seq<char>, amount: Amount },
}

impl View for TransactionRecord {
    type V = RecordView;

    open spec fn view(&self) -> RecordView {
        match *self {
            TransactionRecord::CreateUserAccount(id) => RecordView::CreateUserAccount(id@),
            TransactionRecord::SendTokens { to, amount } => RecordView::SendTokens {
                to: to@,
                amount,
            },
            TransactionRecord::MintTokens { to, amount } => RecordView::MintTokens {
                to: to@,
                amount,
            },
        }
    }
}

/// A change of state in the blockchain.
#[derive(Debug)]
pub struct Transaction {
    /// "number only used once".
    pub nonce: Nonce,
    /// What account initiated the transaction.
    pub from_account_id: Option<Id>,
    /// What data is contained in the transaction.
    pub record: TransactionRecord,
    /// Signed hash of the transaction.
    pub signature: Option<Signature>,
    /// Local time of creation.
    pub created_at: Timestamp,
}

/// A transaction with its strings as sequences of characters.
pub struct TransactionView {
    pub nonce: Nonce,
    pub from_account_id: Option<Seq<char>>,
    pub record: RecordView,
    pub signature: Option<Seq<char>>,
    pub created_at: Timestamp,
}

impl View for Transaction {
    type V = TransactionView;

    open spec fn view(&self) -> TransactionView {
        TransactionView {
            nonce: self.nonce,
            from_account_id: match self.from_account_id {
                Some(id) => Some(id@),
                None => None,
            },
            record: self.record@,
            signature: match self.signature {
                Some(signature) => Some(signature@),
                None => None,
            },
            created_at: self.created_at,
        }
    }
}

/// What applying a transaction to a world gives: the verdict, and the
/// accounts that the world is left with.
pub struct Outcome {
    pub result: Result<(), Error>,
    pub accounts: Map<Seq<char>, Account>,
}

impl RecordView {
    /// The identifier that the record names.
    pub open spec fn id(self) -> Seq<char> {
        match self {
            RecordView::CreateUserAccount(id) => id,
            RecordView::SendTokens { to, .. } => to,
            RecordView::MintTokens { to, .. } => to,
        }
    }

    /// The record as bytes: one byte for its kind, the identifier it names,
    /// and the amount where it has one.
    pub open spec fn encoding(self) -> Seq<u8> {
        match self {
            RecordView::CreateUserAccount(id) => seq![0u8] + id_bytes(id),
            RecordView::SendTokens { to, amount } => seq![1u8] + id_bytes(to)
                + spec_u64_to_le_bytes(amount),
            RecordView::MintTokens { to, amount } => seq![2u8] + id_bytes(to)
                + spec_u64_to_le_bytes(amount),
        }
    }

    /// A record can be read back from the front of the bytes that start with
    /// it.
    pub proof fn lemma_encoding_delimited(
        self,
        after_self: Seq<u8>,
        other: RecordView,
        after_other: Seq<u8>,
    )
        requires
            id_fits(self.id()),
            id_fits(other.id()),
            self.encoding() + after_self == other.encoding() + after_other,
        ensures
            self == other,
            after_self == after_other,
    {
        let whole = self.encoding() + after_self;
        assert(whole[0] == self.encoding()[0]);
        assert(whole[0] == other.encoding()[0]);
        let kind = seq![whole[0]];
        match (self, other) {
            (RecordView::CreateUserAccount(a), RecordView::CreateUserAccount(b)) => {
                assert(whole =~= kind + (id_bytes(a) + after_self));
                assert(whole =~= kind + (id_bytes(b) + after_other));
                lemma_same_parts(kind, id_bytes(a) + after_self, kind, id_bytes(b) + after_other);
                lemma_id_delimited(a, after_self, b, after_other);
            },
            (
                RecordView::SendTokens { to: a, amount: m },
                RecordView::SendTokens { to: b, amount: n },
            ) => {
                let rest_self = spec_u64_to_le_bytes(m) + after_self;
                let rest_other = spec_u64_to_le_bytes(n) + after_other;
                assert(whole =~= kind + (id_bytes(a) + rest_self));
                assert(whole =~= kind + (id_bytes(b) + rest_other));
                lemma_same_parts(kind, id_bytes(a) + rest_self, kind, id_bytes(b) + rest_other);
                lemma_id_delimited(a, rest_self, b, rest_other);
                lemma_u64_delimited(m, after_self, n, after_other);
            },
            (
                RecordView::MintTokens { to: a, amount: m },
                RecordView::MintTokens { to: b, amount: n },
            ) => {
                let rest_self = spec_u64_to_le_bytes(m) + after_self;
                let rest_other = spec_u64_to_le_bytes(n) + after_other;
                assert(whole =~= kind + (id_bytes(a) + rest_self));
                assert(whole =~= kind + (id_bytes(b) + rest_other));
                lemma_same_parts(kind, id_bytes(a) + rest_self, kind, id_bytes(b) + rest_other);
                lemma_id_delimited(a, rest_self, b, rest_other);
                lemma_u64_delimited(m, after_self, n, after_other);
            },
            _ => {},
        }
    }
}

impl Timestamp {
    /// The timestamp as bytes: seconds, then nanoseconds.
    pub open spec fn encoding(self) -> Seq<u8> {
        spec_u64_to_le_bytes(self.secs) + spec_u32_to_le_bytes(self.nanos)
    }
}

/// The verdict `error`, with the accounts left as they are.
pub open spec fn refused(accounts: Map<Seq<char>, Account>, error: Error) -> Outcome {
    Outcome { result: Err(error), accounts }
}

/// Adding `amount` tokens to the account `id`: refused where the account is
/// missing or its balance would pass the largest amount.
pub open spec fn credited(accounts: Map<Seq<char>, Account>, id: Seq<char>, amount: Amount) -> Outcome {
    if !accounts.contains_key(id) {
        refused(accounts, Error::AccountNotFound)
    } else if accounts[id].tokens + amount > Amount::MAX {
        refused(accounts, Error::TooManyTokens)
    } else {
        Outcome {
            result: Ok(()),
            accounts: accounts.insert(id, Account { tokens: (accounts[id].tokens + amount) as Amount }),
        }
    }
}

/// Taking `amount` tokens from the account `id`: refused where the account
/// is missing or holds less.
pub open spec fn debited(accounts: Map<Seq<char>, Account>, id: Seq<char>, amount: Amount) -> Outcome {
    if !accounts.contains_key(id) {
        refused(accounts, Error::AccountNotFound)
    } else if accounts[id].tokens < amount {
        refused(accounts, Error::NotEnoughTokens)
    } else {
        Outcome {
            result: Ok(()),
            accounts: accounts.insert(id, Account { tokens: (accounts[id].tokens - amount) as Amount }),
        }
    }
}

impl TransactionView {
    /// The bytes that are hashed: record, nonce, sender and time of
    /// creation, in that order. The signature is no part of them.
    pub open spec fn encoding(self) -> Seq<u8> {
        self.record.encoding() + spec_u64_to_le_bytes(self.nonce) + optional_id_bytes(
            self.from_account_id,
        ) + self.created_at.encoding()
    }

    /// The hash of the transaction.
    pub open spec fn hash(self) -> Seq<u8> {
        blake3_hash(self.encoding())
    }

    /// What the transaction does to a world with these accounts.
    ///
    /// A transfer debits the sender before it looks at the receiver, so a
    /// transfer that fails at the receiver leaves the sender debited.
    pub open spec fn applied(self, accounts: Map<Seq<char>, Account>, genesis: bool) -> Outcome {
        match self.record {
            RecordView::CreateUserAccount(id) => if accounts.contains_key(id) {
                refused(accounts, Error::AccountAlreadyExists)
            } else {
                Outcome { result: Ok(()), accounts: accounts.insert(id, Account { tokens: 0 }) }
            },
            RecordView::MintTokens { to, amount } => if self.from_account_id is Some {
                refused(accounts, Error::UsersCannotMint)
            } else if !genesis {
                refused(accounts, Error::MintAfterGenesis)
            } else {
                credited(accounts, to, amount)
            },
            RecordView::SendTokens { to, amount } => match self.from_account_id {
                None => refused(accounts, Error::MissingFromAccount),
                Some(from) => {
                    let debit = debited(accounts, from, amount);
                    if debit.result is Err {
                        debit
                    } else {
                        credited(debit.accounts, to, amount)
                    }
                },
            },
        }
    }

    /// Whether two transactions agree in all that is hashed: record, nonce,
    /// sender and time of creation. Their signatures may differ.
    pub open spec fn same_content(self, other: TransactionView) -> bool {
        &&& self.record == other.record
        &&& self.nonce == other.nonce
        &&& self.from_account_id == other.from_account_id
        &&& self.created_at == other.created_at
    }

    /// Determinism: two transactions with the same record, nonce, sender and
    /// time of creation are hashed from the same bytes and so have the same
    /// hash, whatever their signatures are.
    pub proof fn lemma_hash_deterministic(self, other: TransactionView)
        requires
            self.same_content(other),
        ensures
            self.encoding() == other.encoding(),
            self.hash() == other.hash(),
    {
    }

    /// Whether the identifiers of the transaction are short enough to be
    /// written with their lengths. Those of a transaction in memory are.
    pub open spec fn fits(self) -> bool {
        id_fits(self.record.id()) && optional_id_fits(self.from_account_id)
    }

    /// Transactions that are hashed from the same bytes agree in all that
    /// is hashed: the bytes can be read back in one way only. So two
    /// transactions that differ in record, nonce, sender or time of creation
    /// have the same hash only where BLAKE3 collides.
    pub proof fn lemma_encoding_injective(self, other: TransactionView)
        requires
            self.fits(),
            other.fits(),
            self.encoding() == other.encoding(),
        ensures
            self.same_content(other),
    {
        let sender_on = optional_id_bytes(self.from_account_id) + self.created_at.encoding();
        let other_sender_on = optional_id_bytes(other.from_account_id)
            + other.created_at.encoding();
        let nonce_on = spec_u64_to_le_bytes(self.nonce) + sender_on;
        let other_nonce_on = spec_u64_to_le_bytes(other.nonce) + other_sender_on;
        assert(self.encoding() =~= self.record.encoding() + nonce_on);
        assert(other.encoding() =~= other.record.encoding() + other_nonce_on);
        self.record.lemma_encoding_delimited(nonce_on, other.record, other_nonce_on);
        lemma_u64_delimited(self.nonce, sender_on, other.nonce, other_sender_on);
        lemma_optional_id_delimited(
            self.from_account_id,
            self.created_at.encoding(),
            other.from_account_id,
            other.created_at.encoding(),
        );
        lemma_u64_delimited(
            self.created_at.secs,
            spec_u32_to_le_bytes(self.created_at.nanos),
            other.created_at.secs,
            spec_u32_to_le_bytes(other.created_at.nanos),
        );
        lemma_u32_delimited(
            self.created_at.nanos,
            Seq::empty(),
            other.created_at.nanos,
            Seq::empty(),
        );
    }

    /// Underflow guard: a transfer of more tokens than its sender holds is
    /// refused with `NotEnoughTokens`, and no account changes.
    pub proof fn lemma_overdraft_refused(
        self,
        accounts: Map<Seq<char>, Account>,
        genesis: bool,
        from: Seq<char>,
        to: Seq<char>,
        amount: Amount,
    )
        requires
            self.record == (RecordView::SendTokens { to, amount }),
            self.from_account_id == Some(from),
            accounts.contains_key(from),
            amount > accounts[from].tokens,
        ensures
            self.applied(accounts, genesis) == refused(accounts, Error::NotEnoughTokens),
    {
    }

    /// Overflow guard: a mint that would take the balance past the largest
    /// amount is refused with `TooManyTokens`, and no account changes.
    pub proof fn lemma_mint_overflow_refused(
        self,
        accounts: Map<Seq<char>, Account>,
        to: Seq<char>,
        amount: Amount,
    )
        requires
            self.record == (RecordView::MintTokens { to, amount }),
            self.from_account_id is None,
            accounts.contains_key(to),
            accounts[to].tokens + amount > Amount::MAX,
        ensures
            self.applied(accounts, true) == refused(accounts, Error::TooManyTokens),
    {
    }

    /// A refused transaction leaves every account as it was, but for a
    /// transfer that got as far as debiting its sender: that one leaves the
    /// sender debited and every other account as it was.
    pub proof fn lemma_refusal_changes_sender_at_most(
        self,
        accounts: Map<Seq<char>, Account>,
        genesis: bool,
    )
        requires
            self.applied(accounts, genesis).result is Err,
        ensures
            self.applied(accounts, genesis).accounts == accounts || (self.record is SendTokens
                && self.from_account_id is Some && self.applied(accounts, genesis).accounts
                == debited(
                accounts,
                self.from_account_id->Some_0,
                self.record->SendTokens_amount,
            ).accounts),
    {
    }
}

impl TransactionRecord {
    /// Appends the record's bytes to `out`.
    fn encode_into(&self, out: &mut Vec<u8>)
        ensures
            final(out)@ == old(out)@ + self@.encoding(),
            id_fits(self@.id()),
    {
        match self {
            TransactionRecord::CreateUserAccount(id) => {
                out.push(0u8);
                put_id(out, id);
                assert(out@ =~= old(out)@ + self@.encoding());
            },
            TransactionRecord::SendTokens { to, amount } => {
                out.push(1u8);
                put_id(out, to);
                put_u64(out, *amount);
                assert(out@ =~= old(out)@ + self@.encoding());
            },
            TransactionRecord::MintTokens { to, amount } => {
                out.push(2u8);
                put_id(out, to);
                put_u64(out, *amount);
                assert(out@ =~= old(out)@ + self@.encoding());
            },
        }
    }
}

impl Transaction {
    /// A transaction created now, without a signature.
    pub fn new(nonce: Nonce, record: TransactionRecord, from: Option<Id>) -> (transaction: Self)
        ensures
            transaction.nonce == nonce,
            transaction.record == record,
            transaction.from_account_id == from,
            transaction.signature is None,
            transaction.created_at.nanos < 1_000_000_000,
    {
        Transaction::new_at(nonce, record, from, Timestamp::now())
    }

    /// A transaction created at the given time, without a signature.
    pub fn new_at(
        nonce: Nonce,
        record: TransactionRecord,
        from: Option<Id>,
        created_at: Timestamp,
    ) -> (transaction: Self)
        ensures
            transaction == (Transaction {
                nonce,
                from_account_id: from,
                record,
                signature: None,
                created_at,
            }),
    {
        Transaction { nonce, from_account_id: from, record, signature: None, created_at }
    }

    /// The bytes of the transaction that are hashed.
    pub fn encode(&self) -> (bytes: Vec<u8>)
        ensures
            bytes@ == self@.encoding(),
            self@.fits(),
    {
        let mut out: Vec<u8> = Vec::new();
        self.record.encode_into(&mut out);
        put_u64(&mut out, self.nonce);
        put_optional_id(&mut out, &self.from_account_id);
        put_u64(&mut out, self.created_at.secs);
        put_u32(&mut out, self.created_at.nanos);
        assert(out@ =~= self@.encoding());
        out
    }

    /// Calculate the cryptographic hash of this transaction.
    pub fn calculate_hash(&self) -> (hash: crate::Hash)
        ensures
            hash@ == self@.hash(),
            hash@.len() == DIGEST_LEN,
    {
        let bytes = self.encode();
        hash_bytes(bytes.as_slice())
    }

    /// Execute this transaction against the Blockchain.
    ///
    /// The world is changed as the transaction goes, so one that fails half
    /// way leaves its first half done: whoever applies several as one unit
    /// has to undo that.
    pub fn apply<T: WorldState>(&self, world_state: &mut T) -> (res: Result<(), Error>)
        ensures
            res == self@.applied(old(world_state).accounts(), old(world_state).genesis()).result,
            final(world_state).accounts() == self@.applied(
                old(world_state).accounts(),
                old(world_state).genesis(),
            ).accounts,
            final(world_state).genesis() == old(world_state).genesis(),
            final(world_state).rest() == old(world_state).rest(),
    {
        match &self.record {
            TransactionRecord::CreateUserAccount(id) => {
                match world_state.get_account_by_id(id) {
                    Ok(_) => Err(Error::AccountAlreadyExists),
                    Err(_) => world_state.add_account(id.clone()),
                }
            },
            TransactionRecord::MintTokens { to, amount } => match &self.from_account_id {
                Some(_) => Err(Error::UsersCannotMint),
                None => if world_state.is_genesis() {
                    credit(world_state, to, *amount)
                } else {
                    Err(Error::MintAfterGenesis)
                },
            },
            TransactionRecord::SendTokens { to, amount } => match &self.from_account_id {
                None => Err(Error::MissingFromAccount),
                Some(from) => match debit(world_state, from, *amount) {
                    Ok(()) => credit(world_state, to, *amount),
                    Err(e) => Err(e),
                },
            },
        }
    }
}

/// Adds `amount` to the balance of `id`, unless the account is missing or
/// the balance would overflow.
fn credit<T: WorldState>(world_state: &mut T, id: &Id, amount: Amount) -> (res: Result<(), Error>)
    ensures
        res == credited(old(world_state).accounts(), id@, amount).result,
        final(world_state).accounts() == credited(old(world_state).accounts(), id@, amount).accounts,
        final(world_state).genesis() == old(world_state).genesis(),
        final(world_state).rest() == old(world_state).rest(),
{
    match world_state.get_account_by_id_mut(id) {
        Ok(account) => match account.tokens.checked_add(amount) {
            Some(tokens) => {
                account.tokens = tokens;
                Ok(())
            },
            None => {
                assert(old(world_state).accounts().insert(id@, *account) =~= old(world_state).accounts());
                Err(Error::TooManyTokens)
            },
        },
        Err(e) => Err(e),
    }
}

/// Takes `amount` from the balance of `id`, unless the account is missing or
/// holds less.
fn debit<T: WorldState>(world_state: &mut T, id: &Id, amount: Amount) -> (res: Result<(), Error>)
    ensures
        res == debited(old(world_state).accounts(), id@, amount).result,
        final(world_state).accounts() == debited(old(world_state).accounts(), id@, amount).accounts,
        final(world_state).genesis() == old(world_state).genesis(),
        final(world_state).rest() == old(world_state).rest(),
{
    match world_state.get_account_by_id_mut(id) {
        Ok(account) => match account.tokens.checked_sub(amount) {
            Some(tokens) => {
                account.tokens = tokens;
                Ok(())
            },
            None => {
                assert(old(world_state).accounts().insert(id@, *account) =~= old(world_state).accounts());
                Err(Error::NotEnoughTokens)
            },
        },
        Err(e) => Err(e),
    }
}

} // verus!
