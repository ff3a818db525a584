use blockchain::block::Block;
use blockchain::blockchain::Blockchain;
use blockchain::time::Timestamp;
use blockchain::transaction::{Transaction, TransactionRecord};
use blockchain::world::WorldState;
use blockchain::Error;

const NOON: Timestamp = Timestamp {
    secs: 1_700_000_000,
    nanos: 500,
};

fn create(id: &str) -> Transaction {
    Transaction::new_at(0, TransactionRecord::CreateUserAccount(id.into()), None, NOON)
}

fn mint(to: &str, amount: u64) -> Transaction {
    Transaction::new_at(
        0,
        TransactionRecord::MintTokens {
            to: to.into(),
            amount,
        },
        None,
        NOON,
    )
}

fn send(from: &str, to: &str, amount: u64) -> Transaction {
    Transaction::new_at(
        0,
        TransactionRecord::SendTokens {
            to: to.into(),
            amount,
        },
        Some(from.into()),
        NOON,
    )
}

fn sealed(transactions: Vec<Transaction>, previous_hash: Option<Vec<u8>>) -> Block {
    let mut block = Block::new();
    block.transactions = transactions;
    block.previous_hash = previous_hash;
    block.hash = Some(block.calculate_hash());
    block
}

fn balance(chain: &Blockchain, id: &str) -> u64 {
    chain.get_account_by_id(&id.into()).unwrap().tokens
}

/// A chain past its genesis in which alice holds 500 tokens and bob none,
/// and the hash of its only block.
fn funded_chain() -> (Blockchain, Vec<u8>) {
    let mut chain = Blockchain::new();
    create("alice").apply(&mut chain).unwrap();
    create("bob").apply(&mut chain).unwrap();
    mint("alice", 500).apply(&mut chain).unwrap();
    let genesis = sealed(vec![], None);
    let hash = genesis.calculate_hash();
    chain.add_block(genesis).unwrap();
    (chain, hash)
}

#[test]
fn first_block_is_taken_without_applying_its_transactions() {
    let mut chain = Blockchain::new();
    chain.add_account("alice".into()).unwrap();
    chain.add_account("bob".into()).unwrap();

    let genesis = sealed(vec![mint("alice", 500), create("carol")], None);
    assert_eq!(Ok(()), chain.add_block(genesis));

    assert_eq!(0, balance(&chain, "alice"));
    assert_eq!(0, balance(&chain, "bob"));
    assert_eq!(
        Some(Error::AccountNotFound),
        chain.get_account_by_id(&"carol".into()).err()
    );
    assert!(!chain.is_genesis());
}

#[test]
fn first_block_needs_no_previous_hash_and_may_carry_any() {
    let mut chain = Blockchain::new();
    let genesis = sealed(vec![], Some(vec![7; 32]));
    assert_eq!(Ok(()), chain.add_block(genesis));
}

#[test]
fn first_block_with_a_wrong_hash_is_refused() {
    let mut chain = Blockchain::new();
    let mut block = sealed(vec![create("alice")], None);
    block.hash = Some(Block::new().calculate_hash());
    assert_eq!(Err(Error::InvalidHash), chain.add_block(block));
    assert!(chain.is_genesis());

    let unsealed = Block::new();
    assert_eq!(Err(Error::InvalidHash), chain.add_block(unsealed));
    assert!(chain.is_genesis());
}

#[test]
fn second_block_transfers_tokens() {
    let (mut chain, genesis_hash) = funded_chain();

    let block = sealed(vec![send("alice", "bob", 300)], Some(genesis_hash));
    assert_eq!(Ok(()), chain.add_block(block));
    assert_eq!(200, balance(&chain, "alice"));
    assert_eq!(300, balance(&chain, "bob"));

    let overdraft = send("alice", "bob", 1000);
    assert_eq!(Err(Error::NotEnoughTokens), overdraft.apply(&mut chain));
    assert_eq!(200, balance(&chain, "alice"));
    assert_eq!(300, balance(&chain, "bob"));
}

#[test]
fn second_block_cannot_mint() {
    let mut chain = Blockchain::new();
    create("alice").apply(&mut chain).unwrap();
    create("bob").apply(&mut chain).unwrap();
    let genesis = sealed(vec![], None);
    let genesis_hash = genesis.calculate_hash();
    chain.add_block(genesis).unwrap();

    let block = sealed(
        vec![mint("alice", 500), send("alice", "bob", 300)],
        Some(genesis_hash),
    );
    assert_eq!(
        Err(Error::Transaction {
            index: 0,
            cause: Box::new(Error::MintAfterGenesis)
        }),
        chain.add_block(block)
    );
    assert_eq!(0, balance(&chain, "alice"));
    assert_eq!(0, balance(&chain, "bob"));
}

#[test]
fn failed_block_is_rolled_back() {
    let (mut chain, genesis_hash) = funded_chain();

    let block = sealed(
        vec![
            send("alice", "bob", 100),
            create("carol"),
            send("bob", "carol", 40),
            send("alice", "bob", 401),
            send("alice", "bob", 1),
        ],
        Some(genesis_hash.clone()),
    );
    assert_eq!(
        Err(Error::Transaction {
            index: 3,
            cause: Box::new(Error::NotEnoughTokens)
        }),
        chain.add_block(block)
    );
    assert_eq!(500, balance(&chain, "alice"));
    assert_eq!(0, balance(&chain, "bob"));
    assert!(chain.get_account_by_id(&"carol".into()).is_err());

    // The chain still ends in the genesis block: a block that links to it is taken.
    let block = sealed(vec![send("alice", "bob", 500)], Some(genesis_hash));
    assert_eq!(Ok(()), chain.add_block(block));
    assert_eq!(0, balance(&chain, "alice"));
    assert_eq!(500, balance(&chain, "bob"));
}

#[test]
fn half_done_transfer_is_rolled_back_with_its_block() {
    let mut chain = Blockchain::new();
    create("alice").apply(&mut chain).unwrap();
    create("bob").apply(&mut chain).unwrap();
    mint("alice", 10).apply(&mut chain).unwrap();
    mint("bob", u64::MAX).apply(&mut chain).unwrap();
    let genesis = sealed(vec![], None);
    let genesis_hash = genesis.calculate_hash();
    chain.add_block(genesis).unwrap();

    let block = sealed(vec![send("alice", "bob", 1)], Some(genesis_hash));
    assert_eq!(
        Err(Error::Transaction {
            index: 0,
            cause: Box::new(Error::TooManyTokens)
        }),
        chain.add_block(block)
    );
    assert_eq!(10, balance(&chain, "alice"));
    assert_eq!(u64::MAX, balance(&chain, "bob"));
}

#[test]
fn transfer_applied_alone_debits_before_it_fails_at_the_receiver() {
    let mut chain = Blockchain::new();
    create("alice").apply(&mut chain).unwrap();
    create("bob").apply(&mut chain).unwrap();
    mint("alice", 10).apply(&mut chain).unwrap();
    mint("bob", u64::MAX).apply(&mut chain).unwrap();

    assert_eq!(
        Err(Error::TooManyTokens),
        send("alice", "bob", 4).apply(&mut chain)
    );
    assert_eq!(6, balance(&chain, "alice"));
    assert_eq!(u64::MAX, balance(&chain, "bob"));

    assert_eq!(
        Err(Error::AccountNotFound),
        send("alice", "nobody", 1).apply(&mut chain)
    );
    assert_eq!(5, balance(&chain, "alice"));
}

#[test]
fn transfer_to_oneself_changes_nothing() {
    let mut chain = Blockchain::new();
    create("alice").apply(&mut chain).unwrap();
    mint("alice", u64::MAX).apply(&mut chain).unwrap();
    assert_eq!(Ok(()), send("alice", "alice", 9).apply(&mut chain));
    assert_eq!(u64::MAX, balance(&chain, "alice"));
}

#[test]
fn overdraft_and_overflow_change_nothing() {
    let mut chain = Blockchain::new();
    create("alice").apply(&mut chain).unwrap();
    create("bob").apply(&mut chain).unwrap();
    mint("alice", 200).apply(&mut chain).unwrap();

    assert_eq!(
        Err(Error::NotEnoughTokens),
        send("alice", "bob", 201).apply(&mut chain)
    );
    assert_eq!(200, balance(&chain, "alice"));
    assert_eq!(0, balance(&chain, "bob"));

    assert_eq!(
        Err(Error::TooManyTokens),
        mint("alice", u64::MAX - 199).apply(&mut chain)
    );
    assert_eq!(200, balance(&chain, "alice"));

    assert_eq!(Ok(()), mint("alice", u64::MAX - 200).apply(&mut chain));
    assert_eq!(u64::MAX, balance(&chain, "alice"));
}

#[test]
fn block_that_does_not_link_is_refused() {
    let (mut chain, genesis_hash) = funded_chain();

    let unlinked = sealed(vec![send("alice", "bob", 1)], None);
    assert_eq!(Err(Error::InvalidPreviousHash), chain.add_block(unlinked));

    let mislinked = sealed(vec![send("alice", "bob", 1)], Some(vec![0; 32]));
    assert_eq!(Err(Error::InvalidPreviousHash), chain.add_block(mislinked));

    // Refused for its link even though its transactions would fail too.
    let hopeless = sealed(vec![send("nobody", "bob", 1)], Some(vec![0; 32]));
    assert_eq!(Err(Error::InvalidPreviousHash), chain.add_block(hopeless));

    // A hash that is wrong is found before a link that is wrong.
    let mut broken = sealed(vec![send("alice", "bob", 1)], Some(vec![0; 32]));
    broken.hash = Some(vec![1; 32]);
    assert_eq!(Err(Error::InvalidHash), chain.add_block(broken));

    assert_eq!(500, balance(&chain, "alice"));
    assert_eq!(0, balance(&chain, "bob"));

    let linked = sealed(vec![send("alice", "bob", 1)], Some(genesis_hash));
    let linked_hash = linked.calculate_hash();
    assert_eq!(Ok(()), chain.add_block(linked));

    // The third block links to the second, not to the first.
    let third = sealed(vec![send("alice", "bob", 2)], Some(linked_hash));
    assert_eq!(Ok(()), chain.add_block(third));
    assert_eq!(497, balance(&chain, "alice"));
    assert_eq!(3, balance(&chain, "bob"));
}

#[test]
fn every_transaction_error_has_an_input() {
    let mut chain = Blockchain::new();
    create("alice").apply(&mut chain).unwrap();

    assert_eq!(
        Err(Error::AccountAlreadyExists),
        create("alice").apply(&mut chain)
    );
    assert_eq!(
        Err(Error::AccountNotFound),
        mint("nobody", 1).apply(&mut chain)
    );
    let signed_mint = Transaction::new_at(
        0,
        TransactionRecord::MintTokens {
            to: "alice".into(),
            amount: 1,
        },
        Some("alice".into()),
        NOON,
    );
    assert_eq!(Err(Error::UsersCannotMint), signed_mint.apply(&mut chain));
    let unsigned_send = Transaction::new_at(
        0,
        TransactionRecord::SendTokens {
            to: "alice".into(),
            amount: 1,
        },
        None,
        NOON,
    );
    assert_eq!(
        Err(Error::MissingFromAccount),
        unsigned_send.apply(&mut chain)
    );
    assert_eq!(
        Err(Error::AccountNotFound),
        send("nobody", "alice", 1).apply(&mut chain)
    );
    assert_eq!(
        Err(Error::NotEnoughTokens),
        send("alice", "alice", 1).apply(&mut chain)
    );
    assert_eq!(Ok(()), send("alice", "alice", 0).apply(&mut chain));

    chain.add_block(sealed(vec![], None)).unwrap();
    assert_eq!(
        Err(Error::MintAfterGenesis),
        mint("alice", 1).apply(&mut chain)
    );
    // A sender is found out before the genesis is asked about.
    assert_eq!(Err(Error::UsersCannotMint), signed_mint.apply(&mut chain));
}

#[test]
fn identifiers_are_compared_as_written() {
    let mut chain = Blockchain::new();
    chain.add_account("alice".into()).unwrap();
    assert_eq!(Ok(()), chain.add_account("Alice".into()));
    assert_eq!(Ok(()), chain.add_account(" alice".into()));
    assert_eq!(Ok(()), chain.add_account("".into()));
    assert_eq!(
        Err(Error::AccountAlreadyExists),
        chain.add_account("".into())
    );

    mint("Alice", 3).apply(&mut chain).unwrap();
    assert_eq!(0, balance(&chain, "alice"));
    assert_eq!(3, balance(&chain, "Alice"));

    let account = chain.get_account_by_id_mut(&"".into()).unwrap();
    account.tokens = 11;
    assert_eq!(11, balance(&chain, ""));
}

#[test]
fn transactions_with_one_nonce_are_all_applied() {
    let (mut chain, genesis_hash) = funded_chain();

    let block = sealed(
        vec![
            send("alice", "bob", 10),
            send("alice", "bob", 10),
            send("alice", "bob", 10),
        ],
        Some(genesis_hash),
    );
    assert_eq!(Ok(()), chain.add_block(block));
    assert_eq!(470, balance(&chain, "alice"));
    assert_eq!(30, balance(&chain, "bob"));
}

#[test]
fn accounts_made_by_a_block_are_kept() {
    let (mut chain, genesis_hash) = funded_chain();

    let block = sealed(
        vec![create("carol"), send("alice", "carol", 5)],
        Some(genesis_hash),
    );
    assert_eq!(Ok(()), chain.add_block(block));
    assert_eq!(495, balance(&chain, "alice"));
    assert_eq!(5, balance(&chain, "carol"));
    assert_eq!(
        Err(Error::AccountAlreadyExists),
        chain.add_account("carol".into())
    );
}
