use consensus_sim::block::Block;
use consensus_sim::hashing::HashingScheme;

fn sample() -> Block {
    let mut block = Block::with_timestamp(
        7,
        String::from("T"),
        String::from("prev"),
        vec![String::from("ab"), String::from("cd")],
        String::from("Carol"),
    );
    block.nonce = 42;
    block
}

#[test]
fn candidate_has_no_hash_and_nonce_zero() {
    let block = Block::with_timestamp(
        3,
        String::from("2024-01-01T00:00:00+00:00"),
        String::from("abc"),
        vec![String::from("x")],
        String::from("Alice"),
    );
    assert_eq!(block.index, 3);
    assert_eq!(block.timestamp, "2024-01-01T00:00:00+00:00");
    assert_eq!(block.previous_hash, "abc");
    assert_eq!(block.transactions, vec![String::from("x")]);
    assert_eq!(block.nonce, 0);
    assert_eq!(block.hash, "");
    assert_eq!(block.producer, "Alice");
}

#[test]
fn new_block_is_stamped_by_the_clock() {
    let block = Block::new(1, String::from("p"), vec![], String::from("Bob"));
    assert_eq!(block.index, 1);
    assert_eq!(block.previous_hash, "p");
    assert!(block.transactions.is_empty());
    assert_eq!(block.nonce, 0);
    assert_eq!(block.hash, "");
    assert_eq!(block.producer, "Bob");
    assert!(!block.timestamp.is_empty());
    assert!(block.timestamp.contains('T'));
}

#[test]
fn canonical_text_without_nonce() {
    assert_eq!(sample().canonical_text(HashingScheme::WithoutNonce), "7TprevCarolabcd");
}

#[test]
fn canonical_text_with_nonce() {
    assert_eq!(sample().canonical_text(HashingScheme::WithNonce), "7TprevCarol42abcd");
}

#[test]
fn canonical_text_of_block_without_transactions() {
    let block =
        Block::with_timestamp(0, String::from("t"), String::from("0"), vec![], String::from("S"));
    assert_eq!(block.canonical_text(HashingScheme::WithoutNonce), "0t0S");
    assert_eq!(block.canonical_text(HashingScheme::WithNonce), "0t0S0");
}

#[test]
fn hash_is_sha256_of_canonical_text() {
    assert_eq!(
        sample().calculate_hash(HashingScheme::WithoutNonce),
        "45e489103433799059800752be9bb3427d65c94a2c72090dbe529c47b9fe407b"
    );
    assert_eq!(
        sample().calculate_hash(HashingScheme::WithNonce),
        "b971730656c7bfaee222e1d260824b3a83d9feb019a847c3d2d74712ed2a7e9c"
    );
}

#[test]
fn hash_does_not_depend_on_the_stored_hash() {
    let mut block = sample();
    let before = block.calculate_hash(HashingScheme::WithNonce);
    block.hash = String::from("something else");
    assert_eq!(block.calculate_hash(HashingScheme::WithNonce), before);
}

#[test]
fn hash_without_nonce_does_not_depend_on_the_nonce() {
    let mut block = sample();
    let before = block.calculate_hash(HashingScheme::WithoutNonce);
    block.nonce = 43;
    assert_eq!(block.calculate_hash(HashingScheme::WithoutNonce), before);
    assert_ne!(
        block.calculate_hash(HashingScheme::WithNonce),
        "b971730656c7bfaee222e1d260824b3a83d9feb019a847c3d2d74712ed2a7e9c"
    );
}

#[test]
fn changing_a_field_changes_the_hash() {
    let base = sample().calculate_hash(HashingScheme::WithNonce);
    let mut block = sample();
    block.index = 8;
    assert_ne!(block.calculate_hash(HashingScheme::WithNonce), base);
    let mut block = sample();
    block.previous_hash = String::from("other");
    assert_ne!(block.calculate_hash(HashingScheme::WithNonce), base);
    let mut block = sample();
    block.producer = String::from("Dave");
    assert_ne!(block.calculate_hash(HashingScheme::WithNonce), base);
    let mut block = sample();
    block.transactions.push(String::from("ef"));
    assert_ne!(block.calculate_hash(HashingScheme::WithNonce), base);
}

#[test]
fn finalize_stores_the_hash_and_nothing_else() {
    let mut block = sample();
    block.finalize_block(HashingScheme::WithoutNonce);
    assert_eq!(block.hash, "45e489103433799059800752be9bb3427d65c94a2c72090dbe529c47b9fe407b");
    let mut expected = sample();
    expected.hash = block.hash.clone();
    assert_eq!(block, expected);
}

#[test]
fn finalize_twice_gives_the_same_hash() {
    let mut block = sample();
    block.finalize_block(HashingScheme::WithNonce);
    let first = block.hash.clone();
    block.finalize_block(HashingScheme::WithNonce);
    assert_eq!(block.hash, first);
}

#[test]
fn clone_is_equal_to_the_block() {
    let mut block = sample();
    block.finalize_block(HashingScheme::WithNonce);
    assert_eq!(block.clone(), block);
}
