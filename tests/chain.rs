use chain_node::blockchain::{commit_step, Block, BlockRejection, Blockchain, CommitStep, MineError};
use chain_node::cryptography::{calculate_hash, verify_pow};
use chain_node::prune::prune_chain;
use chain_node::utils::valid_data_payload;

const GENESIS_HASH: &str = "9957c080b76e696c8df066302d0ac3656042eeaae15a6c65cd2c6c43aba538a7";

fn mined_chain(len: usize) -> Blockchain {
    let mut chain = Blockchain::new();
    while chain.blocks.len() < len {
        let data = format!("block {}", chain.blocks.len());
        let b = chain.mine_block_at(data, 1000 + chain.blocks.len() as u128).unwrap();
        assert!(chain.add_block(b).is_ok());
    }
    chain
}

#[test]
fn genesis_chain_has_one_sentinel_block() {
    let chain = Blockchain::new();
    assert_eq!(chain.blocks.len(), 1);
    let g = chain.tip();
    assert_eq!(g.index, 0);
    assert_eq!(g.timestamp, 0);
    assert_eq!(g.prev_hash, "0");
    assert_eq!(g.data, "GENESIS");
    assert_eq!(g.nonce, 0);
    assert_eq!(g.hash, GENESIS_HASH);
}

#[test]
fn new_dummy_is_genesis() {
    let g = Block::new_dummy();
    assert_eq!(g.hash, GENESIS_HASH);
    assert_eq!(g.data, "GENESIS");
}

#[test]
fn hash_is_sha256_of_concatenated_fields() {
    assert_eq!(
        calculate_hash(1, 23, "ab", "hello", 7),
        "a1fd45258220674cc5601b84a894401c88b9a626e833e49404ceadfc10d2dc5b"
    );
}

#[test]
fn hash_input_has_no_delimiters() {
    assert_eq!(
        calculate_hash(1, 23, "ab", "hello", 7),
        calculate_hash(12, 3, "ab", "hello", 7)
    );
    assert_ne!(
        calculate_hash(1, 23, "ab", "hello", 7),
        calculate_hash(1, 23, "ab", "hello", 8)
    );
}

#[test]
fn block_new_seals_its_fields() {
    let b = Block::new(3, 44, "p".to_string(), "d".to_string(), 9);
    assert_eq!(b.index, 3);
    assert_eq!(b.timestamp, 44);
    assert_eq!(b.nonce, 9);
    assert_eq!(b.hash, calculate_hash(3, 44, "p", "d", 9));
}

#[test]
fn pow_needs_four_leading_zeros() {
    assert!(verify_pow("0000abc"));
    assert!(verify_pow("0000"));
    assert!(!verify_pow("000abc0"));
    assert!(!verify_pow("000"));
    assert!(!verify_pow(""));
    assert!(!verify_pow(GENESIS_HASH));
}

#[test]
fn mine_on_genesis_links_to_genesis() {
    let mut chain = Blockchain::new();
    let genesis_hash = chain.tip().hash.clone();
    let b = chain.mine_block("x".to_string()).unwrap();
    assert_eq!(b.index, 1);
    assert_eq!(b.prev_hash, genesis_hash);
    assert_eq!(b.data, "x");
    assert!(verify_pow(&b.hash));
    assert_eq!(b.hash, calculate_hash(b.index, b.timestamp, &b.prev_hash, &b.data, b.nonce));
    assert_eq!(chain.blocks.len(), 1);
}

#[test]
fn mined_block_has_least_qualifying_nonce() {
    let chain = Blockchain::new();
    let b = chain.mine_block_at("x".to_string(), 5).unwrap();
    assert_eq!(b.timestamp, 5);
    for n in 0..b.nonce {
        assert!(!verify_pow(&calculate_hash(1, 5, GENESIS_HASH, "x", n)));
    }
}

#[test]
fn add_block_accepts_mined_block() {
    let mut chain = Blockchain::new();
    let b = chain.mine_block_at("payload".to_string(), 77).unwrap();
    assert_eq!(chain.add_block(b.clone()), Ok(()));
    assert_eq!(chain.blocks.len(), 2);
    assert_eq!(chain.tip().hash, b.hash);
}

#[test]
fn add_block_rejects_link_mismatch() {
    let mut chain = Blockchain::new();
    let b = chain.mine_block_at("a".to_string(), 1).unwrap();
    let mut stale = b.clone();
    stale.prev_hash = "ffff".to_string();
    assert_eq!(chain.add_block(stale), Err(BlockRejection::LinkMismatch));
    assert_eq!(chain.blocks.len(), 1);
    assert!(chain.add_block(b.clone()).is_ok());
    assert_eq!(chain.add_block(b), Err(BlockRejection::LinkMismatch));
    assert_eq!(chain.blocks.len(), 2);
}

#[test]
fn add_block_rejects_failed_difficulty() {
    let mut chain = Blockchain::new();
    let candidate = Block::new(1, 0, GENESIS_HASH.to_string(), "x".to_string(), 0);
    assert!(!verify_pow(&candidate.hash));
    assert_eq!(chain.add_block(candidate), Err(BlockRejection::ProofOfWorkInvalid));
    assert_eq!(chain.blocks.len(), 1);
}

#[test]
fn add_block_rejects_forged_hash() {
    let mut chain = Blockchain::new();
    let mut b = chain.mine_block_at("honest".to_string(), 9).unwrap();
    b.data = "forged".to_string();
    assert_eq!(chain.add_block(b), Err(BlockRejection::ProofOfWorkInvalid));
    assert_eq!(chain.blocks.len(), 1);
}

#[test]
fn sync_adopts_longer_chain_without_validation() {
    let mut chain = Blockchain::new();
    let junk = Blockchain {
        blocks: vec![
            Block::new(7, 0, "x".to_string(), "a".to_string(), 0),
            Block::new(9, 0, "y".to_string(), "b".to_string(), 0),
        ],
    };
    assert!(chain.sync(junk));
    assert_eq!(chain.blocks.len(), 2);
    assert_eq!(chain.tip().index, 9);
}

#[test]
fn sync_keeps_chain_when_not_longer() {
    let mut chain = Blockchain::new();
    let other = Blockchain { blocks: vec![Block::new(5, 0, "x".to_string(), "a".to_string(), 0)] };
    assert!(!chain.sync(other));
    assert_eq!(chain.blocks.len(), 1);
    assert_eq!(chain.tip().hash, GENESIS_HASH);
}

#[test]
fn prune_is_noop_when_short() {
    let mut chain = mined_chain(3);
    let before: Vec<String> = chain.blocks.iter().map(|b| b.hash.clone()).collect();
    prune_chain(&mut chain, 3);
    prune_chain(&mut chain, 10);
    let after: Vec<String> = chain.blocks.iter().map(|b| b.hash.clone()).collect();
    assert_eq!(before, after);
}

#[test]
fn prune_keeps_most_recent_blocks_in_order() {
    let mut chain = mined_chain(4);
    let before: Vec<String> = chain.blocks.iter().map(|b| b.hash.clone()).collect();
    prune_chain(&mut chain, 2);
    let after: Vec<String> = chain.blocks.iter().map(|b| b.hash.clone()).collect();
    assert_eq!(after, before[2..].to_vec());
    assert_eq!(chain.blocks[0].index, 2);
    assert_eq!(chain.tip().index, 3);
}

#[test]
fn payload_of_1025_bytes_is_rejected_before_mining() {
    let chain = Blockchain::new();
    let big = "a".repeat(1025);
    assert!(!valid_data_payload(&big));
    assert_eq!(chain.mine_payload(big, 1).unwrap_err(), MineError::InvalidPayload);
}

#[test]
fn payload_limits() {
    assert!(valid_data_payload(&"a".repeat(1024)));
    assert!(!valid_data_payload(""));
    assert!(!valid_data_payload(" \t\n\u{3000}"));
    assert!(valid_data_payload(" x "));
    assert!(valid_data_payload(&"é".repeat(512)));
    assert!(!valid_data_payload(&"é".repeat(513)));
}

#[test]
fn mine_payload_mines_valid_data() {
    let chain = Blockchain::new();
    let b = chain.mine_payload("x".to_string(), 5).unwrap();
    assert_eq!(b.index, 1);
    assert_eq!(b.timestamp, 5);
    assert!(verify_pow(&b.hash));
    assert_eq!(chain.mine_payload("   ".to_string(), 5).unwrap_err(), MineError::InvalidPayload);
}

#[test]
fn find_block_by_hash_and_filter() {
    let chain = mined_chain(3);
    let h = chain.blocks[2].hash.clone();
    assert_eq!(chain.find_block(&h, None), Some(2));
    assert_eq!(chain.find_block(&h, Some("ock 2")), Some(2));
    assert_eq!(chain.find_block(&h, Some("")), Some(2));
    assert_eq!(chain.find_block(&h, Some("block 1")), None);
    assert_eq!(chain.find_block("nope", None), None);
    assert_eq!(chain.find_block(GENESIS_HASH, Some("GEN")), Some(0));
}

#[test]
fn commit_step_follows_add_block_outcome() {
    assert_eq!(commit_step(Ok(())), CommitStep::Committed);
    assert_eq!(commit_step(Err(BlockRejection::LinkMismatch)), CommitStep::MineAgain);
    assert_eq!(commit_step(Err(BlockRejection::ProofOfWorkInvalid)), CommitStep::GiveUp);
}
