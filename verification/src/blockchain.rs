//! The chain: blocks that were admitted, and the accounts they left.

use vstd::prelude::*;
use crate::account::Account;
use crate::block::{
    hash_view, same_hash, transaction_views, Block, BlockView, MAX_TRANSACTIONS,
};
use crate::error::Error;
use crate::id::Id;
use crate::transaction::{Transaction, TransactionView};
use crate::world::WorldState;

verus! {

/// One registered account, under its identifier.
#[derive(Debug)]
struct Entry {
    id: Id,
    account: Account,
}

/// Contains the state of the blockchain.
#[derive(Debug)]
pub struct Blockchain {
    /// All the blocks composing the blockchain.
    blocks: Vec<Block>,
    /// All accounts, it is the current "world state": one entry for each
    /// identifier, in the order of registration. A lookup takes the first
    /// entry of an identifier, and nothing is registered under an identifier
    /// that has one.
    accounts: Vec<Entry>,
    /// In-progress transactions.
    pending_transactions: Vec<Transaction>,
}

/// The chain as a mathematical value.
pub struct ChainView {
    /// The admitted blocks, oldest first.
    pub blocks: Seq<BlockView>,
    /// The accounts, by identifier.
    pub accounts: Map<Seq<char>, Account>,
    /// Transactions waiting for a block.
    pub pending_transactions: Seq<TransactionView>,
}

/// What submitting a block gives: the verdict, and the chain afterwards.
pub struct Admission {
    pub result: Result<(), Error>,
    pub chain: ChainView,
}

/// The transactions from `start` on, applied in order to a world past its
/// genesis that holds `accounts`: the accounts after the last of them, or the
/// place and the cause of the first failure.
pub open spec fn run_from(
    transactions: Seq<TransactionView>,
    start: int,
    accounts: Map<Seq<char>, Account>,
) -> Result<Map<Seq<char>, Account>, (int, Error)>
    decreases transactions.len() - start,
{
    if start < 0 || start >= transactions.len() {
        Ok(accounts)
    } else {
        let step = transactions[start].applied(accounts, false);
        match step.result {
            Ok(()) => run_from(transactions, start + 1, step.accounts),
            Err(cause) => Err((start, cause)),
        }
    }
}

impl ChainView {
    /// A chain without blocks, accounts or pending transactions.
    pub open spec fn empty() -> ChainView {
        ChainView {
            blocks: Seq::empty(),
            accounts: Map::empty(),
            pending_transactions: Seq::empty(),
        }
    }

    /// Whether every block carries the hash that its transactions give, and
    /// every block but the first names the hash of the block before it.
    pub open spec fn well_formed(self) -> bool {
        &&& forall|i: int| 0 <= i < self.blocks.len() ==> (#[trigger] self.blocks[i]).hash_valid()
        &&& forall|i: int|
            0 < i < self.blocks.len() ==> (#[trigger] self.blocks[i]).previous_hash
                == self.blocks[i - 1].hash
    }

    /// The chain with one more block, and with these accounts.
    pub open spec fn extended(self, block: BlockView, accounts: Map<Seq<char>, Account>) -> ChainView {
        ChainView {
            blocks: self.blocks.push(block),
            accounts,
            pending_transactions: self.pending_transactions,
        }
    }

    /// What submitting `block` to this chain gives.
    ///
    /// A block whose hash is not the one its transactions give is refused.
    /// The first block of a chain is then taken as it is: its transactions
    /// are not applied, and the accounts stay as they are. Any later block
    /// must name the hash of the last block, and its transactions are
    /// applied in order; if one fails, the block is refused and the chain is
    /// left exactly as it was.
    pub open spec fn admitted(self, block: BlockView) -> Admission {
        if !block.hash_valid() {
            Admission { result: Err(Error::InvalidHash), chain: self }
        } else if self.blocks.len() == 0 {
            Admission { result: Ok(()), chain: self.extended(block, self.accounts) }
        } else if block.previous_hash != self.blocks.last().hash {
            Admission { result: Err(Error::InvalidPreviousHash), chain: self }
        } else {
            match run_from(block.transactions, 0, self.accounts) {
                Ok(accounts) => Admission { result: Ok(()), chain: self.extended(block, accounts) },
                Err((index, cause)) => Admission {
                    result: Err(Error::Transaction { index: index as usize, cause: Box::new(cause) }),
                    chain: self,
                },
            }
        }
    }

    /// Genesis bypass: the first block of a chain leaves every account as it
    /// was, whatever transactions it holds, a mint among them.
    pub proof fn lemma_first_block_leaves_accounts(self, block: BlockView)
        requires
            self.blocks.len() == 0,
        ensures
            self.admitted(block).chain.accounts == self.accounts,
    {
    }

    /// Rollback atomicity: a block that is refused, be it for its hash, its
    /// link or any of its transactions, leaves the chain and all its
    /// accounts exactly as they were.
    pub proof fn lemma_refusal_leaves_chain(self, block: BlockView)
        requires
            self.admitted(block).result is Err,
        ensures
            self.admitted(block).chain == self,
    {
    }

    /// Chain linkage: a block with a hash of its own that is in order, but
    /// which does not name the hash of the last block, is refused with
    /// `InvalidPreviousHash`, whether or not its transactions could be
    /// applied.
    pub proof fn lemma_unlinked_block_refused(self, block: BlockView)
        requires
            self.blocks.len() > 0,
            block.hash_valid(),
            block.previous_hash != self.blocks.last().hash,
        ensures
            self.admitted(block).result == Err::<(), Error>(Error::InvalidPreviousHash),
    {
    }

    /// Submitting a block to a well-formed chain leaves a well-formed chain:
    /// blocks get in with the hash that their transactions give, and linked
    /// to the block before them.
    pub proof fn lemma_admission_keeps_well_formed(self, block: BlockView)
        requires
            self.well_formed(),
        ensures
            self.admitted(block).chain.well_formed(),
    {
    }

    /// The blocks of a chain are never taken away or replaced: submitting a
    /// block adds it at the end or leaves the blocks as they are, and a chain
    /// that has a block keeps having one.
    pub proof fn lemma_admission_appends(self, block: BlockView)
        ensures
            self.admitted(block).chain.blocks == if self.admitted(block).result is Ok {
                self.blocks.push(block)
            } else {
                self.blocks
            },
            self.blocks.len() > 0 ==> self.admitted(block).chain.blocks.len() > 0,
    {
    }
}

/// The accounts that a list of entries stands for. Where an identifier has
/// several entries, the first one counts.
spec fn ledger(entries: Seq<Entry>) -> Map<Seq<char>, Account>
    decreases entries.len(),
{
    if entries.len() == 0 {
        Map::empty()
    } else {
        let before = ledger(entries.drop_last());
        let entry = entries.last();
        if before.contains_key(entry.id@) {
            before
        } else {
            before.insert(entry.id@, entry.account)
        }
    }
}

/// Block views of a sequence of blocks.
spec fn block_views(blocks: Seq<Block>) -> Seq<BlockView> {
    blocks.map_values(|block: Block| block@)
}

/// An identifier that no entry has is no key of the ledger.
proof fn lemma_ledger_absent(entries: Seq<Entry>, key: Seq<char>)
    requires
        forall|j: int| 0 <= j < entries.len() ==> entries[j].id@ != key,
    ensures
        !ledger(entries).contains_key(key),
    decreases entries.len(),
{
    if entries.len() > 0 {
        lemma_ledger_absent(entries.drop_last(), key);
    }
}

/// The first entry of an identifier holds the account that the ledger gives.
proof fn lemma_ledger_first(entries: Seq<Entry>, i: int, key: Seq<char>)
    requires
        0 <= i < entries.len(),
        entries[i].id@ == key,
        forall|j: int| 0 <= j < i ==> entries[j].id@ != key,
    ensures
        ledger(entries).contains_key(key),
        ledger(entries)[key] == entries[i].account,
    decreases entries.len(),
{
    if i == entries.len() - 1 {
        lemma_ledger_absent(entries.drop_last(), key);
    } else {
        lemma_ledger_first(entries.drop_last(), i, key);
    }
}

/// Writing an account into the first entry of an identifier writes it into
/// the ledger.
proof fn lemma_ledger_update(entries: Seq<Entry>, i: int, account: Account)
    requires
        0 <= i < entries.len(),
        forall|j: int| 0 <= j < i ==> entries[j].id@ != entries[i].id@,
    ensures
        ledger(entries.update(i, Entry { id: entries[i].id, account })) == ledger(entries).insert(
            entries[i].id@,
            account,
        ),
    decreases entries.len(),
{
    let key = entries[i].id@;
    let written = entries.update(i, Entry { id: entries[i].id, account });
    let before = ledger(entries.drop_last());
    if i == entries.len() - 1 {
        lemma_ledger_absent(entries.drop_last(), key);
        assert(written.drop_last() =~= entries.drop_last());
        assert(ledger(written) =~= ledger(entries).insert(key, account));
    } else {
        lemma_ledger_update(entries.drop_last(), i, account);
        lemma_ledger_first(entries.drop_last(), i, key);
        assert(written.drop_last() =~= entries.drop_last().update(
            i,
            Entry { id: entries[i].id, account },
        ));
        assert(ledger(written) =~= ledger(entries).insert(key, account));
    }
}

/// The place of the first entry of `id`, if it has one.
fn find(entries: &Vec<Entry>, id: &Id) -> (place: Option<usize>)
    ensures
        match place {
            Some(i) => {
                &&& i < entries@.len()
                &&& entries@[i as int].id@ == id@
                &&& forall|j: int| 0 <= j < i ==> entries@[j].id@ != id@
                &&& ledger(entries@).contains_key(id@)
                &&& ledger(entries@)[id@] == entries@[i as int].account
            },
            None => !ledger(entries@).contains_key(id@),
        },
{
    let mut i: usize = 0;
    while i < entries.len()
        invariant
            i <= entries@.len(),
            forall|j: int| 0 <= j < i ==> entries@[j].id@ != id@,
        decreases entries@.len() - i,
    {
        if entries[i].id == *id {
            proof {
                lemma_ledger_first(entries@, i as int, id@);
            }
            return Some(i);
        }
        i += 1;
    }
    proof {
        lemma_ledger_absent(entries@, id@);
    }
    None
}

/// A copy of the entries.
fn copy_entries(entries: &Vec<Entry>) -> (copy: Vec<Entry>)
    ensures
        copy@ == entries@,
{
    let mut copy: Vec<Entry> = Vec::new();
    let mut i: usize = 0;
    while i < entries.len()
        invariant
            i <= entries@.len(),
            copy@ == entries@.take(i as int),
        decreases entries@.len() - i,
    {
        copy.push(Entry { id: entries[i].id.clone(), account: entries[i].account.clone() });
        assert(copy@ =~= entries@.take(i + 1));
        i += 1;
    }
    assert(entries@.take(i as int) =~= entries@);
    copy
}

impl View for Blockchain {
    type V = ChainView;

    closed spec fn view(&self) -> ChainView {
        ChainView {
            blocks: block_views(self.blocks@),
            accounts: ledger(self.accounts@),
            pending_transactions: transaction_views(self.pending_transactions@),
        }
    }
}

impl Blockchain {
    /// Get the hash of the last block in the chain.
    fn get_last_block_hash(&self) -> (hash: Option<crate::Hash>)
        ensures
            hash_view(hash) == if self@.blocks.len() == 0 {
                None
            } else {
                self@.blocks.last().hash
            },
    {
        if self.blocks.len() == 0 {
            return None;
        }
        match &self.blocks[self.blocks.len() - 1].hash {
            Some(hash) => {
                let copy = hash.clone();
                assert(copy@ =~= hash@);
                Some(copy)
            },
            None => None,
        }
    }

    /// If the block is correct, add it to the chain.
    ///
    /// The verdict and the chain afterwards are those of
    /// [`ChainView::admitted`]. In particular a refused block leaves no
    /// trace, the first block of a chain leaves the accounts alone, and a
    /// later block that does not name the hash of the last block is refused
    /// whatever its transactions are.
    pub fn add_block(&mut self, block: Block) -> (res: Result<(), Error>)
        requires
            block.transactions@.len() <= MAX_TRANSACTIONS,
        ensures
            res == old(self)@.admitted(block@).result,
            final(self)@ == old(self)@.admitted(block@).chain,
            res is Err ==> final(self)@ == old(self)@,
            res is Ok ==> final(self)@.blocks == old(self)@.blocks.push(block@),
            old(self)@.blocks.len() == 0 ==> final(self)@.accounts == old(self)@.accounts,
            old(self)@.blocks.len() > 0 && block@.hash_valid() && block@.previous_hash
                != old(self)@.blocks.last().hash ==> res == Err::<(), Error>(
                Error::InvalidPreviousHash,
            ),
            old(self)@.well_formed() ==> final(self)@.well_formed(),
    {
        if !block.is_hash_valid() {
            return Err(Error::InvalidHash);
        }
        if self.is_genesis() {
            self.blocks.push(block);
            assert(self@.blocks =~= old(self)@.blocks.push(block@));
            return Ok(());
        }
        let last = self.get_last_block_hash();
        if !same_hash(&block.previous_hash, &last) {
            return Err(Error::InvalidPreviousHash);
        }
        let previous_state = copy_entries(&self.accounts);
        let mut i: usize = 0;
        while i < block.transactions.len()
            invariant
                i <= block.transactions@.len(),
                block@.hash_valid(),
                old(self)@.blocks.len() > 0,
                block@.previous_hash == old(self)@.blocks.last().hash,
                previous_state@ == old(self).accounts@,
                self@.blocks == old(self)@.blocks,
                self@.pending_transactions == old(self)@.pending_transactions,
                run_from(block@.transactions, 0, old(self)@.accounts) == run_from(
                    block@.transactions,
                    i as int,
                    self@.accounts,
                ),
            decreases block.transactions@.len() - i,
        {
            match block.transactions[i].apply(self) {
                Ok(()) => {},
                Err(cause) => {
                    // roll back
                    self.accounts = previous_state;
                    return Err(Error::Transaction { index: i, cause: Box::new(cause) });
                },
            }
            i += 1;
        }
        self.blocks.push(block);
        assert(self@.blocks =~= old(self)@.blocks.push(block@));
        Ok(())
    }

    /// A chain without blocks and without accounts.
    pub fn new() -> (chain: Self)
        ensures
            chain@ == ChainView::empty(),
            chain@.well_formed(),
    {
        let chain = Blockchain {
            blocks: Vec::new(),
            accounts: Vec::new(),
            pending_transactions: Vec::new(),
        };
        assert(chain@.blocks =~= Seq::empty());
        assert(chain@.pending_transactions =~= Seq::empty());
        chain
    }
}

impl Default for Blockchain {
    fn default() -> (chain: Self)
        ensures
            chain@ == ChainView::empty(),
    {
        Blockchain::new()
    }
}

impl WorldState for Blockchain {
    type Rest = (Seq<BlockView>, Seq<TransactionView>);

    open spec fn accounts(&self) -> Map<Seq<char>, Account> {
        self@.accounts
    }

    open spec fn genesis(&self) -> bool {
        self@.blocks.len() == 0
    }

    open spec fn rest(&self) -> (Seq<BlockView>, Seq<TransactionView>) {
        (self@.blocks, self@.pending_transactions)
    }

    fn is_genesis(&self) -> (genesis: bool) {
        self.blocks.is_empty()
    }

    fn get_account_by_id(&self, id: &Id) -> (res: Result<&Account, Error>) {
        match find(&self.accounts, id) {
            Some(i) => Ok(&self.accounts[i].account),
            None => Err(Error::AccountNotFound),
        }
    }

    fn get_account_by_id_mut(&mut self, id: &Id) -> (res: Result<&mut Account, Error>) {
        match find(&self.accounts, id) {
            Some(i) => {
                proof {
                    assert forall|account: Account|
                        #[trigger] ledger(
                            self.accounts@.update(
                                i as int,
                                Entry { id: self.accounts@[i as int].id, account },
                            ),
                        ) == ledger(self.accounts@).insert(id@, account) by {
                        lemma_ledger_update(self.accounts@, i as int, account);
                    }
                }
                Ok(&mut self.accounts[i].account)
            },
            None => Err(Error::AccountNotFound),
        }
    }

    fn add_account(&mut self, id: Id) -> (res: Result<(), Error>) {
        match find(&self.accounts, &id) {
            Some(_) => Err(Error::AccountAlreadyExists),
            None => {
                self.accounts.push(Entry { id, account: Account::new() });
                assert(self.accounts@.drop_last() =~= old(self).accounts@);
                Ok(())
            },
        }
    }
}

} // verus!
