use blockchain::block::Block;
use blockchain::blockchain::Blockchain;
use blockchain::time::Timestamp;
use blockchain::transaction::{Transaction, TransactionRecord};
use blockchain::world::WorldState;

fn create_user(world_state: &mut impl WorldState, id: &str) -> Result<(), String> {
    let transaction = Transaction::new(
        0,
        TransactionRecord::CreateUserAccount(id.to_string().into()),
        None,
    );
    transaction.apply(world_state).map_err(|e| e.message())
}

fn mint_tokens(world_state: &mut impl WorldState, id: &str, amount: u64) -> Result<(), String> {
    let transaction = Transaction::new(
        0,
        TransactionRecord::MintTokens {
            to: id.to_string().into(),
            amount,
        },
        None,
    );
    transaction.apply(world_state).map_err(|e| e.message())
}

fn send_tokens(
    world_state: &mut impl WorldState,
    from: &str,
    id: &str,
    amount: u64,
) -> Result<(), String> {
    let transaction = Transaction::new(
        0,
        TransactionRecord::SendTokens {
            to: id.to_string().into(),
            amount,
        },
        Some(from.to_string().into()),
    );
    transaction.apply(world_state).map_err(|e| e.message())
}

#[test]
fn test_calculate_block_hash_is_deterministic() {
    let block1 = Block::new();
    let block2 = Block::new();
    assert_eq!(block1.calculate_hash(), block2.calculate_hash());
}

#[test]
fn test_calculate_block_hash_is_deterministic_with_transactions() {
    let mut block1 = Block::new();
    let mut block2 = Block::new();

    let transaction1 = Transaction::new(
        5,
        TransactionRecord::CreateUserAccount("hi".to_string().into()),
        None,
    );
    let mut transaction2 = Transaction::new(
        5,
        TransactionRecord::CreateUserAccount("hi".to_string().into()),
        None,
    );
    // make sure transactions are equal, even though that's
    // not what we're testing here
    transaction2.created_at = transaction1.created_at;
    assert_eq!(format!("{:?}", transaction1), format!("{:?}", transaction2));

    block1.transactions.push(transaction1);
    block2.transactions.push(transaction2);
    assert_eq!(block1.calculate_hash(), block2.calculate_hash())
}

#[test]
fn test_calculate_block_hash_does_not_collide() {
    let block1 = Block::new();
    let mut block2 = Block::new();

    block2.transactions.push(Transaction::new(
        5,
        TransactionRecord::CreateUserAccount("hi".to_string().into()),
        None,
    ));

    assert_ne!(block1.calculate_hash(), block2.calculate_hash());
}

#[test]
fn main_test_add_block() {
    let mut chain = Blockchain::new();
    let mut block = Block::new();

    block.transactions.push(Transaction {
        nonce: 0,
        from_account_id: Some("hello".to_string().into()),
        record: TransactionRecord::CreateUserAccount("world".to_string().into()),
        signature: Some("signature".to_string()),
        created_at: Timestamp::now(),
    });
    block.hash = Some(block.calculate_hash());

    assert_eq!(Ok(()), chain.add_block(block))
}

#[test]
fn main_test_apply_create_user() {
    let mut chain = Blockchain::new();
    assert_eq!(Ok(()), create_user(&mut chain, "someone"));
}

#[test]
fn main_test_apply_create_already_existing_user() {
    let mut chain = Blockchain::new();
    create_user(&mut chain, "someone").unwrap();

    assert_eq!(
        Err("account already exists".to_string()),
        create_user(&mut chain, "someone")
    );
}

#[test]
fn main_test_apply_mint() {
    let mut chain = Blockchain::new();
    let account_id = "someone";

    create_user(&mut chain, account_id).unwrap();

    assert_eq!(Ok(()), mint_tokens(&mut chain, account_id, 200));

    let account = chain
        .get_account_by_id(&account_id.to_string().into())
        .unwrap();
    assert_eq!(200, account.tokens)
}

#[test]
fn main_test_apply_mint_missing_user() {
    let mut chain = Blockchain::new();
    assert_eq!(
        Err("account doesn't exist".to_string()),
        mint_tokens(&mut chain, "I don't exist", 200),
    );
}

#[test]
fn main_test_prevent_using_minting() {
    let mut chain = Blockchain::new();
    let account_id = "someone";

    create_user(&mut chain, account_id).unwrap();

    let transaction = Transaction::new(
        1,
        TransactionRecord::MintTokens {
            to: account_id.to_string().into(),
            amount: 200,
        },
        Some(account_id.to_string().into()),
    );
    assert_eq!(
        Err("users cannot mint tokens".to_string()),
        transaction.apply(&mut chain).map_err(|e| e.message()),
    );
}

#[test]
fn main_test_apply_mint_not_genesis() {
    let mut chain = Blockchain::new();

    let mut block = Block::new();
    block.hash = Some(block.calculate_hash());
    chain.add_block(block).unwrap();

    create_user(&mut chain, "someone").unwrap();
    assert_eq!(
        Err("cannot mint tokens after genesis".to_string()),
        mint_tokens(&mut chain, "someone", 200)
    );
}

#[test]
fn main_test_send_tokens() {
    let mut chain = Blockchain::new();

    create_user(&mut chain, "sender").unwrap();
    create_user(&mut chain, "receiver").unwrap();
    mint_tokens(&mut chain, "sender", 200).unwrap();

    let res = send_tokens(&mut chain, "sender", "receiver", 180);
    assert_eq!(Ok(()), res);

    let sender = chain
        .get_account_by_id(&"sender".to_string().into())
        .unwrap();
    assert_eq!(20, sender.tokens);

    let receiver = chain
        .get_account_by_id(&"receiver".to_string().into())
        .unwrap();
    assert_eq!(180, receiver.tokens);
}

#[test]
fn main_test_send_tokens_not_enough_tokens() {
    let mut chain = Blockchain::new();

    create_user(&mut chain, "sender").unwrap();
    create_user(&mut chain, "receiver").unwrap();
    mint_tokens(&mut chain, "sender", 200).unwrap();

    let res = send_tokens(&mut chain, "sender", "receiver", 5000);
    assert_eq!(Err("not enough tokens".to_string()), res);
}

#[test]
fn main_test_send_tokens_overflow() {
    let mut chain = Blockchain::new();

    create_user(&mut chain, "sender").unwrap();
    mint_tokens(&mut chain, "sender", u64::MAX).unwrap();
    create_user(&mut chain, "receiver").unwrap();
    mint_tokens(&mut chain, "receiver", u64::MAX).unwrap();

    let res = send_tokens(&mut chain, "sender", "receiver", 5000);
    assert_eq!(Err("too many tokens".to_string()), res);
}

#[test]
fn main_test_cannot_create_duplicate_accounts() {
    let mut chain = Blockchain::new();

    chain.add_account("someone".to_string().into()).unwrap();
    assert_eq!(
        Err("account already exists".to_string()),
        chain
            .add_account("someone".to_string().into())
            .map_err(|e| e.message())
    )
}
