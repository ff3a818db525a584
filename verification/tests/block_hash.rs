use blockchain::block::Block;
use blockchain::transaction::{Transaction, TransactionRecord};

#[test]
fn test_calculate_hash_is_deterministic() {
    let block1 = Block::new();
    let block2 = Block::new();
    assert_eq!(block1.calculate_hash(), block2.calculate_hash());
}

#[test]
fn test_calculate_hash_is_deterministic_with_transactions() {
    let mut block1 = Block::new();
    let mut block2 = Block::new();

    let transaction1 = Transaction::new(5, TransactionRecord::CreateUserAccount("hi".into()), None);
    let mut transaction2 =
        Transaction::new(5, TransactionRecord::CreateUserAccount("hi".into()), None);
    // make sure transactions are equal, even though that's
    // not what we're testing here
    transaction2.created_at = transaction1.created_at;
    assert_eq!(format!("{:?}", transaction1), format!("{:?}", transaction2));

    block1.transactions.push(transaction1);
    block2.transactions.push(transaction2);
    assert_eq!(block1.calculate_hash(), block2.calculate_hash())
}

#[test]
fn test_calculate_hash_does_not_collide() {
    let block1 = Block::new();
    let mut block2 = Block::new();

    block2.transactions.push(Transaction::new(
        5,
        TransactionRecord::CreateUserAccount("hi".into()),
        None,
    ));

    assert_ne!(block1.calculate_hash(), block2.calculate_hash());
}
