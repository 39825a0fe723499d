use consensus_sim::block::Block;
use consensus_sim::hashing::HashingScheme;
use consensus_sim::proof_of_work::validate;

const PREVIOUS: &str = "4ee6b533e7815fbc73007bc4b0d4febe6691ed7190adb5e5d79872e3993613fd";

fn candidate() -> Block {
    Block::with_timestamp(
        1,
        String::from("2024-01-01T00:00:05+00:00"),
        String::from(PREVIOUS),
        vec![String::from("a"), String::from("b")],
        String::from("Validator"),
    )
}

#[test]
fn mining_finds_the_first_nonce_at_difficulty_one() {
    let mut block = candidate();
    assert!(block.mine_block(1));
    assert_eq!(block.nonce, 4);
    assert_eq!(block.hash, "0c38f0b56c4d2173d33e3f323f8d7219544b98e9c6ca6116fb07730564488790");
}

#[test]
fn mining_finds_the_first_nonce_at_difficulty_two() {
    let mut block = candidate();
    assert!(block.mine_block(2));
    assert_eq!(block.nonce, 105);
    assert_eq!(block.hash, "00dcb5d8e05d4b56f40c23dddcf65761cca8d47e50ed5a05de0d74b4972495e8");
}

#[test]
fn mining_finds_the_first_nonce_at_difficulty_three() {
    let mut block = candidate();
    assert!(block.mine_block(3));
    assert_eq!(block.nonce, 175);
    assert_eq!(block.hash, "0005361dfdace1b06ab186885d44e5663d548ed5b6922c6184e42725b494a462");
}

#[test]
fn mining_at_difficulty_zero_takes_nonce_zero() {
    let mut block = candidate();
    assert!(block.mine_block(0));
    assert_eq!(block.nonce, 0);
    assert_eq!(block.hash, block.calculate_hash(HashingScheme::WithNonce));
}

#[test]
fn mining_starts_from_nonce_zero() {
    let mut block = candidate();
    block.nonce = 1_000;
    assert!(block.mine_block(1));
    assert_eq!(block.nonce, 4);
}

#[test]
fn mining_changes_only_nonce_and_hash() {
    let mut block = candidate();
    assert!(block.mine_block(2));
    let mut expected = candidate();
    expected.nonce = block.nonce;
    expected.hash = block.hash.clone();
    assert_eq!(block, expected);
}

#[test]
fn no_smaller_nonce_meets_the_difficulty() {
    let mut block = candidate();
    assert!(block.mine_block(2));
    let mut probe = candidate();
    for nonce in 0..block.nonce {
        probe.nonce = nonce;
        assert!(!probe.calculate_hash(HashingScheme::WithNonce).starts_with("00"));
    }
}

#[test]
fn mining_fails_beyond_the_length_of_a_hash() {
    let mut block = candidate();
    block.nonce = 9;
    block.hash = String::from("kept");
    assert!(!block.mine_block(65));
    assert_eq!(block.nonce, 9);
    assert_eq!(block.hash, "kept");
}

#[test]
fn mined_block_is_valid_work() {
    let mut block = candidate();
    assert!(block.mine_block(2));
    assert!(validate(&block, 2));
    assert!(validate(&block, 1));
    assert!(validate(&block, 0));
    assert!(!validate(&block, 3));
}

#[test]
fn validate_refuses_a_hash_that_is_not_the_block_s() {
    let mut block = candidate();
    assert!(block.mine_block(1));
    block.transactions.push(String::from("slipped in"));
    assert!(!validate(&block, 1));
    assert!(!validate(&block, 0));
}

#[test]
fn validate_refuses_a_forged_hash() {
    let mut block = candidate();
    assert!(block.mine_block(1));
    block.hash = String::from("0000000000000000000000000000000000000000000000000000000000000000");
    assert!(!validate(&block, 1));
}

#[test]
fn validate_refuses_a_block_that_was_not_finalized() {
    assert!(!validate(&candidate(), 0));
}

#[test]
fn validate_reads_the_nonce() {
    let mut block = candidate();
    block.finalize_block(HashingScheme::WithoutNonce);
    assert!(!validate(&block, 0));
    block.finalize_block(HashingScheme::WithNonce);
    assert!(validate(&block, 0));
    assert!(!validate(&block, 65));
}
