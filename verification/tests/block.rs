use pow_ledger::block::{check_target, Block, TARGET_BYTE};
use pow_ledger::utils::Hash32;

fn attempt_digest(prev: &Block, index: u64, nonce: u64) -> Hash32 {
    Hash32::from_string(&format!("{}{}{}", prev.hash.to_hex(), index, nonce))
}

#[test]
fn genesis_create() {
    let genesis = Block::mine_genesis();

    let block = Block {
        hash: Hash32::default(),
        prev_hash: Hash32::default(),
        nonce: 0,
        index: 0,
        miner_addr: "".to_string(),
    };

    assert_eq!(genesis, block);
}

#[test]
fn mine_block_creates_valid_block() {
    let prev_block = Block::mine_genesis();
    let miner_addr = "miner1";
    let difficulty = 2;

    let block = Block::mine(&prev_block, miner_addr, difficulty);

    assert_eq!(block.prev_hash, prev_block.hash);
    assert_eq!(block.index, prev_block.index + 1);
    assert_eq!(block.miner_addr, miner_addr);

    let target = vec![7u8; difficulty];
    assert_eq!(block.hash.get_substr(difficulty), target);
}

#[test]
fn default_block_is_genesis() {
    assert_eq!(Block::default(), Block::mine_genesis());
    let genesis = Block::default();
    assert_eq!(genesis.index, 0);
    assert_eq!(genesis.nonce, 0);
    assert_eq!(genesis.miner_addr, "");
    assert_eq!(genesis.hash.to_hex(), "0".repeat(64));
    assert_eq!(genesis.prev_hash.to_hex(), "0".repeat(64));
}

#[test]
fn mined_digest_starts_with_seven_at_difficulty_one() {
    let genesis = Block::mine_genesis();
    let block = Block::mine(&genesis, "miner", 1);
    assert_eq!(block.hash.get_substr(1)[0], 7);
    assert_eq!(TARGET_BYTE, 7);
}

#[test]
fn mined_digest_is_the_digest_of_the_attempt_text() {
    let genesis = Block::mine_genesis();
    let block = Block::mine(&genesis, "miner", 1);
    assert_eq!(block.index, 1);
    assert_eq!(block.hash, attempt_digest(&genesis, 1, block.nonce));

    let next = Block::mine(&block, "miner", 1);
    assert_eq!(next.index, 2);
    assert_eq!(next.prev_hash, block.hash);
    assert_eq!(next.hash, attempt_digest(&block, 2, next.nonce));
}

#[test]
fn mined_nonce_is_the_smallest() {
    let genesis = Block::mine_genesis();
    let block = Block::mine(&genesis, "miner", 1);
    for nonce in 0..block.nonce {
        let digest = attempt_digest(&genesis, 1, nonce);
        assert_ne!(digest.get_substr(1)[0], 7);
    }
}

#[test]
fn mining_on_genesis_gives_known_blocks() {
    let genesis = Block::mine_genesis();

    let first = Block::mine(&genesis, "miner", 1);
    assert_eq!(first.nonce, 16);
    assert_eq!(first.index, 1);
    assert_eq!(
        first.hash.to_hex(),
        "0783d8c4edc992bcdf7201c1b64e345782cb9f8445717a7d30e2b7370828e2d7"
    );
    assert_eq!(first.prev_hash.to_hex(), "0".repeat(64));

    let second = Block::mine(&first, "miner", 1);
    assert_eq!(second.nonce, 70);
    assert_eq!(second.index, 2);
    assert_eq!(
        second.hash.to_hex(),
        "0717995fcf2c89d06b963593a01cf39ffdfdb64e44b39cf41372e75c42a19ffe"
    );
    assert_eq!(second.prev_hash, first.hash);

    let harder = Block::mine(&genesis, "miner", 2);
    assert_eq!(harder.nonce, 13552);
    assert_eq!(
        harder.hash.to_hex(),
        "0707115a61133049c7a04695aa30c09a274b5c1dd59dbe124d375b7eb6a739eb"
    );
}

#[test]
fn mining_does_not_depend_on_the_miner() {
    let genesis = Block::mine_genesis();
    let a = Block::mine(&genesis, "alice", 1);
    let b = Block::mine(&genesis, "bob", 1);
    assert_eq!(a.nonce, b.nonce);
    assert_eq!(a.hash, b.hash);
    assert_eq!(a.index, b.index);
    assert_eq!(a.prev_hash, b.prev_hash);
    assert_eq!(a.miner_addr, "alice");
    assert_eq!(b.miner_addr, "bob");
}

#[test]
fn difficulty_zero_is_met_by_nonce_zero() {
    let genesis = Block::mine_genesis();
    let block = Block::mine(&genesis, "miner", 0);
    assert_eq!(block.nonce, 0);
    assert_eq!(block.index, 1);
    assert_eq!(block.hash, attempt_digest(&genesis, 1, 0));
}

#[test]
fn check_target_reads_the_leading_bytes() {
    let zero = Hash32::default();
    assert!(check_target(&zero, 0));
    assert!(!check_target(&zero, 1));
    assert!(!check_target(&zero, 32));
    assert!(!check_target(&zero, 33));

    let genesis = Block::mine_genesis();
    let block = Block::mine(&genesis, "miner", 1);
    assert!(check_target(&block.hash, 0));
    assert!(check_target(&block.hash, 1));
    assert_eq!(check_target(&block.hash, 2), block.hash.get_substr(2)[1] == 7);
    assert!(!check_target(&block.hash, 33));
}

#[test]
fn a_mined_block_is_a_valid_successor() {
    let genesis = Block::mine_genesis();
    let block = Block::mine(&genesis, "miner", 1);
    assert!(block.is_valid_successor(&genesis, 1));
    assert!(block.is_valid_successor(&genesis, 0));
    assert!(!block.is_valid_successor(&genesis, 33));
    assert!(!block.is_valid_successor(&block, 1));
    assert!(!genesis.is_valid_successor(&genesis, 0));
}

#[test]
fn a_tampered_block_is_no_valid_successor() {
    let genesis = Block::mine_genesis();
    let block = Block::mine(&genesis, "miner", 1);

    let other_nonce = Block {
        hash: block.hash,
        prev_hash: block.prev_hash,
        nonce: block.nonce + 1,
        index: block.index,
        miner_addr: String::new(),
    };
    assert!(!other_nonce.is_valid_successor(&genesis, 1));

    let other_index = Block {
        hash: block.hash,
        prev_hash: block.prev_hash,
        nonce: block.nonce,
        index: 2,
        miner_addr: String::new(),
    };
    assert!(!other_index.is_valid_successor(&genesis, 1));

    let other_prev = Block {
        hash: block.hash,
        prev_hash: block.hash,
        nonce: block.nonce,
        index: block.index,
        miner_addr: String::new(),
    };
    assert!(!other_prev.is_valid_successor(&genesis, 1));

    let other_hash = Block {
        hash: Hash32::default(),
        prev_hash: block.prev_hash,
        nonce: block.nonce,
        index: block.index,
        miner_addr: String::new(),
    };
    assert!(!other_hash.is_valid_successor(&genesis, 0));
}

#[test]
fn no_block_follows_the_last_index() {
    let last = Block {
        hash: Hash32::default(),
        prev_hash: Hash32::default(),
        nonce: 0,
        index: u64::MAX,
        miner_addr: String::new(),
    };
    let genesis = Block::mine_genesis();
    assert!(!genesis.is_valid_successor(&last, 0));
    assert_eq!(Block::mine_with_witness(&last, "miner", 0, 0), None);
}

#[test]
fn mine_with_witness_mines_when_the_witness_is_a_proof_of_work() {
    let genesis = Block::mine_genesis();
    let block = Block::mine(&genesis, "miner", 1);

    let again = Block::mine_with_witness(&genesis, "miner", 1, block.nonce);
    assert_eq!(again, Some(Block::mine(&genesis, "miner", 1)));

    let later = (block.nonce + 1..)
        .find(|nonce| attempt_digest(&genesis, 1, *nonce).get_substr(1)[0] == 7)
        .unwrap();
    assert_eq!(later, 61);
    let from_later = Block::mine_with_witness(&genesis, "miner", 1, later).unwrap();
    assert_eq!(from_later.nonce, block.nonce);
    assert_eq!(from_later.hash, block.hash);
}

#[test]
fn mine_with_witness_refuses_a_witness_that_proves_nothing() {
    let genesis = Block::mine_genesis();
    let block = Block::mine(&genesis, "miner", 1);
    assert!(block.nonce > 0);
    assert_eq!(Block::mine_with_witness(&genesis, "miner", 1, block.nonce - 1), None);
    assert_eq!(Block::mine_with_witness(&genesis, "miner", 1, block.nonce + 1), None);
    assert_eq!(Block::mine_with_witness(&genesis, "miner", 33, block.nonce), None);
}
