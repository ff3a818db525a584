use blockchain::block::Block;
use blockchain::blockchain::Blockchain;
use blockchain::time::Timestamp;
use blockchain::transaction::{Transaction, TransactionRecord};
use blockchain::world::WorldState;

#[test]
fn blockchain_test_add_block() {
    let mut chain = Blockchain::new();
    let mut block = Block::new();

    block.transactions.push(Transaction {
        nonce: 0,
        from_account_id: Some("hello".into()),
        record: TransactionRecord::CreateUserAccount("world".into()),
        signature: Some("signature".to_string()),
        created_at: Timestamp::now(),
    });
    block.hash = Some(block.calculate_hash());

    assert_eq!(Ok(()), chain.add_block(block))
}

#[test]
fn blockchain_test_cannot_create_duplicate_accounts() {
    let mut chain = Blockchain::new();

    chain.add_account("someone".into()).unwrap();
    assert_eq!(
        Err("account already exists".to_string()),
        chain.add_account("someone".into()).map_err(|e| e.message())
    )
}
