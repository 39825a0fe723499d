use consensus_sim::block::Block;
use consensus_sim::chain::{Chain, ChainError};
use consensus_sim::hashing::HashingScheme;

const GENESIS_TIME: &str = "2024-01-01T00:00:00+00:00";

fn next_block(chain: &Chain, producer: &str) -> Block {
    let tail = chain.tail().unwrap();
    let mut block = Block::with_timestamp(
        tail.index + 1,
        String::from("later"),
        tail.hash.clone(),
        vec![String::from("tx")],
        String::from(producer),
    );
    block.finalize_block(HashingScheme::WithoutNonce);
    block
}

#[test]
fn genesis_block_is_seeded() {
    let chain = Chain::rooted_at(String::from(GENESIS_TIME), HashingScheme::WithoutNonce);
    assert_eq!(chain.len(), 1);
    let genesis = &chain.iterate()[0];
    assert_eq!(genesis.index, 0);
    assert_eq!(genesis.timestamp, GENESIS_TIME);
    assert_eq!(genesis.previous_hash, "0");
    assert_eq!(genesis.transactions, vec![String::from("Genesis Block")]);
    assert_eq!(genesis.nonce, 0);
    assert_eq!(genesis.producer, "System");
    assert_eq!(genesis.hash, "611f5ff075035c81edd611d3a0522f5ec7c0df8a562adbc1b478b0128d6d1136");
}

#[test]
fn genesis_hash_includes_the_nonce_under_that_scheme() {
    let chain = Chain::rooted_at(String::from(GENESIS_TIME), HashingScheme::WithNonce);
    assert_eq!(
        chain.iterate()[0].hash,
        "4ee6b533e7815fbc73007bc4b0d4febe6691ed7190adb5e5d79872e3993613fd"
    );
}

#[test]
fn chain_created_now_has_a_genesis_block() {
    let chain = Chain::new(HashingScheme::WithoutNonce);
    assert_eq!(chain.len(), 1);
    let genesis = chain.tail().unwrap();
    assert_eq!(genesis.index, 0);
    assert_eq!(genesis.previous_hash, "0");
    assert_eq!(genesis.producer, "System");
    assert_eq!(genesis.hash, genesis.calculate_hash(HashingScheme::WithoutNonce));
}

#[test]
fn tail_is_the_last_block() {
    let mut chain = Chain::rooted_at(String::from(GENESIS_TIME), HashingScheme::WithoutNonce);
    assert_eq!(chain.tail().unwrap().index, 0);
    let block = next_block(&chain, "Alice");
    let expected = block.clone();
    assert_eq!(chain.append(block), Ok(()));
    assert_eq!(chain.tail().unwrap(), &expected);
}

#[test]
fn append_accepts_a_block_that_continues_the_tail() {
    let mut chain = Chain::rooted_at(String::from(GENESIS_TIME), HashingScheme::WithoutNonce);
    let first = next_block(&chain, "Alice");
    assert_eq!(chain.append(first), Ok(()));
    let second = next_block(&chain, "Bob");
    assert_eq!(chain.append(second), Ok(()));
    assert_eq!(chain.len(), 3);
    let blocks = chain.iterate();
    assert_eq!(blocks[1].producer, "Alice");
    assert_eq!(blocks[2].producer, "Bob");
}

#[test]
fn append_refuses_a_wrong_previous_hash() {
    let mut chain = Chain::rooted_at(String::from(GENESIS_TIME), HashingScheme::WithoutNonce);
    let mut block = next_block(&chain, "Alice");
    block.previous_hash = String::from("not the tail's hash");
    assert_eq!(chain.append(block), Err(ChainError::LinkageError));
    assert_eq!(chain.len(), 1);
}

#[test]
fn append_refuses_a_wrong_index() {
    let mut chain = Chain::rooted_at(String::from(GENESIS_TIME), HashingScheme::WithoutNonce);
    let mut block = next_block(&chain, "Alice");
    block.index = 2;
    assert_eq!(chain.append(block), Err(ChainError::LinkageError));
    let mut block = next_block(&chain, "Alice");
    block.index = 0;
    assert_eq!(chain.append(block), Err(ChainError::LinkageError));
    assert_eq!(chain.len(), 1);
}

#[test]
fn append_does_not_examine_the_block_s_own_hash() {
    let mut chain = Chain::rooted_at(String::from(GENESIS_TIME), HashingScheme::WithoutNonce);
    let mut block = next_block(&chain, "Alice");
    block.hash = String::from("unchecked");
    assert_eq!(chain.append(block), Ok(()));
    assert_eq!(chain.tail().unwrap().hash, "unchecked");
}

#[test]
fn appended_blocks_are_linked_and_numbered() {
    let mut chain = Chain::rooted_at(String::from(GENESIS_TIME), HashingScheme::WithoutNonce);
    for producer in ["Alice", "Bob", "Charlie", "David"] {
        let block = next_block(&chain, producer);
        assert_eq!(chain.append(block), Ok(()));
    }
    let blocks = chain.iterate();
    assert_eq!(blocks.len(), 5);
    for i in 1..blocks.len() {
        assert_eq!(blocks[i].previous_hash, blocks[i - 1].hash);
        assert_eq!(blocks[i].index, blocks[i - 1].index + 1);
    }
}

#[test]
fn iterate_can_be_restarted() {
    let mut chain = Chain::rooted_at(String::from(GENESIS_TIME), HashingScheme::WithoutNonce);
    let block = next_block(&chain, "Alice");
    assert_eq!(chain.append(block), Ok(()));
    let first: Vec<u64> = chain.iterate().iter().map(|block| block.index).collect();
    let second: Vec<u64> = chain.iterate().iter().map(|block| block.index).collect();
    assert_eq!(first, vec![0, 1]);
    assert_eq!(first, second);
}
