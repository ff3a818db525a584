//! Blocks: ordered batches of transactions with a hash over them.

use vstd::prelude::*;
use crate::digest::{
    blake3_finalize, hasher_absorbed, hasher_finalize, hasher_is_regular, hasher_new,
    hasher_update, DIGEST_LEN,
};
use crate::encoding::lemma_same_parts;
use crate::transaction::{Transaction, TransactionView};

verus! {

/// A block contains a number of transactions.
/// It is only valid in the context of the blockchain: it names the hash of
/// the block before it.
#[derive(Debug)]
pub struct Block {
    /// All transactions contained in this block.
    pub transactions: Vec<Transaction>,
    /// Hash of the full block, i.e. hash all transactions hashes.
    pub hash: Option<crate::Hash>,
    /// Hash of the previous block.
    pub previous_hash: Option<crate::Hash>,
}

/// Most transactions that a block can be hashed with: their hashes, of 32
/// bytes each, have to fit in one input of the hash function.
pub const MAX_TRANSACTIONS: u64 = 0x07ff_ffff_ffff_ffff;

/// A block with its transactions and hashes as sequences.
pub struct BlockView {
    pub transactions: Seq<TransactionView>,
    pub hash: Option<Seq<u8>>,
    pub previous_hash: Option<Seq<u8>>,
}

/// An optional hash as an optional sequence of bytes.
pub open spec fn hash_view(hash: Option<crate::Hash>) -> Option<Seq<u8>> {
    match hash {
        Some(hash) => Some(hash@),
        None => None,
    }
}

/// Transactions as a sequence of their views.
pub open spec fn transaction_views(transactions: Seq<Transaction>) -> Seq<TransactionView> {
    transactions.map_values(|transaction: Transaction| transaction@)
}

impl View for Block {
    type V = BlockView;

    open spec fn view(&self) -> BlockView {
        BlockView {
            transactions: transaction_views(self.transactions@),
            hash: hash_view(self.hash),
            previous_hash: hash_view(self.previous_hash),
        }
    }
}

/// What the hasher of a block is fed: the hashes of the transactions, one
/// after the other.
pub open spec fn hash_input(transactions: Seq<TransactionView>) -> Seq<u8>
    decreases transactions.len(),
{
    if transactions.len() == 0 {
        Seq::empty()
    } else {
        hash_input(transactions.drop_last()) + transactions.last().hash()
    }
}

impl BlockView {
    /// The hash that the transactions of the block give. It depends on them
    /// and on their order, and on nothing else; for a block without
    /// transactions it is the digest of no bytes at all.
    pub open spec fn computed_hash(self) -> Seq<u8> {
        blake3_finalize(hash_input(self.transactions))
    }

    /// Whether the block carries the hash that its transactions give.
    pub open spec fn hash_valid(self) -> bool {
        self.hash == Some(self.computed_hash())
    }
}

/// Transactions that agree place by place in what is hashed feed the hasher
/// of a block the same bytes.
pub proof fn lemma_hash_input_deterministic(a: Seq<TransactionView>, b: Seq<TransactionView>)
    requires
        a.len() == b.len(),
        forall|i: int| 0 <= i < a.len() ==> a[i].same_content(b[i]),
    ensures
        hash_input(a) == hash_input(b),
    decreases a.len(),
{
    if a.len() > 0 {
        lemma_hash_input_deterministic(a.drop_last(), b.drop_last());
        a.last().lemma_hash_deterministic(b.last());
    }
}

/// Whether every transaction has a hash of the length of a digest, as every
/// hash that was computed has.
pub open spec fn hashes_sized(transactions: Seq<TransactionView>) -> bool {
    forall|i: int|
        0 <= i < transactions.len() ==> (#[trigger] transactions[i]).hash().len() == DIGEST_LEN
}

/// The hasher of a block is fed 32 bytes for each transaction.
pub proof fn lemma_hash_input_len(transactions: Seq<TransactionView>)
    requires
        hashes_sized(transactions),
    ensures
        hash_input(transactions).len() == DIGEST_LEN * transactions.len(),
    decreases transactions.len(),
{
    if transactions.len() > 0 {
        let before = transactions.drop_last();
        assert forall|i: int| 0 <= i < before.len() implies (#[trigger] before[i]).hash().len()
            == DIGEST_LEN by {
            assert(before[i] == transactions[i]);
        }
        lemma_hash_input_len(before);
    }
}

/// What the hasher of a block is fed tells how many transactions there are
/// and what the hash of each is. So two blocks that differ in the number of
/// their transactions, or in the hash of one, have the same hash only where
/// BLAKE3 collides.
pub proof fn lemma_hash_input_injective(a: Seq<TransactionView>, b: Seq<TransactionView>)
    requires
        hashes_sized(a),
        hashes_sized(b),
        hash_input(a) == hash_input(b),
    ensures
        a.len() == b.len(),
        forall|i: int| 0 <= i < a.len() ==> (#[trigger] a[i]).hash() == b[i].hash(),
    decreases a.len(),
{
    lemma_hash_input_len(a);
    lemma_hash_input_len(b);
    if a.len() > 0 {
        let before_a = a.drop_last();
        let before_b = b.drop_last();
        assert forall|i: int| 0 <= i < before_a.len() implies (#[trigger] before_a[i]).hash().len()
            == DIGEST_LEN by {
            assert(before_a[i] == a[i]);
        }
        assert forall|i: int| 0 <= i < before_b.len() implies (#[trigger] before_b[i]).hash().len()
            == DIGEST_LEN by {
            assert(before_b[i] == b[i]);
        }
        lemma_hash_input_len(before_a);
        lemma_hash_input_len(before_b);
        assert(a.last().hash().len() == DIGEST_LEN);
        assert(b.last().hash().len() == DIGEST_LEN);
        lemma_same_parts(
            hash_input(before_a),
            a.last().hash(),
            hash_input(before_b),
            b.last().hash(),
        );
        lemma_hash_input_injective(before_a, before_b);
        assert forall|i: int| 0 <= i < a.len() implies (#[trigger] a[i]).hash() == b[i].hash() by {
            if i < a.len() - 1 {
                assert(before_a[i] == a[i]);
                assert(before_b[i] == b[i]);
            }
        }
    }
}

impl BlockView {
    /// Determinism: two blocks with as many transactions, which agree place
    /// by place in what is hashed, have the same hash. The hashes that the
    /// blocks carry, and the signatures of their transactions, play no part.
    pub proof fn lemma_hash_deterministic(self, other: BlockView)
        requires
            self.transactions.len() == other.transactions.len(),
            forall|i: int|
                0 <= i < self.transactions.len() ==> self.transactions[i].same_content(
                    other.transactions[i],
                ),
        ensures
            self.computed_hash() == other.computed_hash(),
    {
        lemma_hash_input_deterministic(self.transactions, other.transactions);
    }

    /// A block without transactions has the digest of no bytes as its hash.
    pub proof fn lemma_empty_hash(self)
        requires
            self.transactions.len() == 0,
        ensures
            self.computed_hash() == blake3_finalize(Seq::empty()),
    {
    }
}

/// Whether two hashes hold the same bytes.
fn same_bytes(a: &crate::Hash, b: &crate::Hash) -> (same: bool)
    ensures
        same == (a@ == b@),
{
    let same = *a == *b;
    proof {
        if same {
            assert(a@ =~= b@);
        }
    }
    same
}

/// Whether two optional hashes are both absent, or both present with the
/// same bytes.
pub(crate) fn same_hash(a: &Option<crate::Hash>, b: &Option<crate::Hash>) -> (same: bool)
    ensures
        same == (hash_view(*a) == hash_view(*b)),
{
    match (a, b) {
        (None, None) => true,
        (Some(a), Some(b)) => same_bytes(a, b),
        _ => false,
    }
}

impl Block {
    /// Calculate the cryptographic hash of this block.
    pub fn calculate_hash(&self) -> (hash: crate::Hash)
        requires
            self.transactions@.len() <= MAX_TRANSACTIONS,
        ensures
            hash@ == self@.computed_hash(),
            hash@.len() == DIGEST_LEN,
    {
        let mut hasher = hasher_new();
        let mut i: usize = 0;
        while i < self.transactions.len()
            invariant
                i <= self.transactions@.len(),
                self.transactions@.len() <= MAX_TRANSACTIONS,
                hasher_is_regular(hasher),
                hasher_absorbed(hasher) == hash_input(self@.transactions.take(i as int)),
                hasher_absorbed(hasher).len() == DIGEST_LEN * i,
            decreases self.transactions@.len() - i,
        {
            let hash = self.transactions[i].calculate_hash();
            hasher_update(&mut hasher, hash.as_slice());
            proof {
                let done = self@.transactions.take(i + 1);
                assert(done.drop_last() =~= self@.transactions.take(i as int));
                assert(done.last() == self.transactions@[i as int]@);
            }
            i += 1;
        }
        assert(self@.transactions.take(i as int) =~= self@.transactions);
        hasher_finalize(&hasher)
    }

    /// Is this block's hash valid?
    pub fn is_hash_valid(&self) -> (valid: bool)
        requires
            self.transactions@.len() <= MAX_TRANSACTIONS,
        ensures
            valid == self@.hash_valid(),
    {
        match &self.hash {
            None => false,
            Some(hash) => {
                let computed = self.calculate_hash();
                same_bytes(hash, &computed)
            },
        }
    }

    /// A block without transactions and without hashes.
    pub fn new() -> (block: Self)
        ensures
            block.transactions@.len() == 0,
            block.hash is None,
            block.previous_hash is None,
            block@ == (BlockView {
                transactions: Seq::empty(),
                hash: None,
                previous_hash: None,
            }),
    {
        let block = Block { transactions: Vec::new(), hash: None, previous_hash: None };
        assert(block@.transactions =~= Seq::empty());
        block
    }
}

impl Default for Block {
    fn default() -> (block: Self)
        ensures
            block@ == (BlockView {
                transactions: Seq::empty(),
                hash: None,
                previous_hash: None,
            }),
    {
        Block::new()
    }
}

} // verus!
