use novamind::chain::{
    genesis_block, genesis_block_at, try_verify_blockchain, verify_blockchain, Block, ChainVerdict,
};

fn block(index: u64, prev_hash: &str) -> Block {
    let mut b = Block {
        index,
        timestamp: 1_700_000_100,
        miner: "nvd_00112233".to_string(),
        worker_name: "Rig-1".to_string(),
        solution_steps: "step one, step two".to_string(),
        prev_hash: prev_hash.to_string(),
        hash: String::new(),
        reward: "9.523809523809524".to_string(),
        difficulty: 1,
    };
    b.hash = b.compute_hash();
    b
}

fn chain(n: u64) -> Vec<Block> {
    let mut blocks = vec![genesis_block_at(1_700_000_000)];
    for i in 1..n {
        let prev = blocks[(i - 1) as usize].hash.clone();
        blocks.push(block(i, &prev));
    }
    blocks
}

#[test]
fn genesis_block_holds_its_constants() {
    let g = genesis_block_at(42);
    assert_eq!(g.index, 0);
    assert_eq!(g.timestamp, 42);
    assert_eq!(g.miner, "NovaMind-Genesis");
    assert_eq!(g.worker_name, "Master-Node");
    assert_eq!(g.solution_steps, "Eco-Computation Immutable Genesis");
    assert_eq!(g.prev_hash, "0".repeat(32));
    assert_eq!(g.hash, "b677b627f6201fb57c8ccd26b94ffe8a");
    assert_eq!(g.reward, format!("{}", 10.0));
    assert_eq!(g.difficulty, 1);
}

#[test]
fn genesis_block_is_made_for_an_empty_store_only() {
    let g = genesis_block(0).unwrap();
    assert_eq!(g.hash, "b677b627f6201fb57c8ccd26b94ffe8a");
    assert!(g.timestamp > 1_600_000_000);
    assert!(genesis_block(1).is_none());
    assert!(genesis_block(-1).is_none());
}

#[test]
fn hash_is_taken_of_all_other_fields_in_order() {
    let b = block(1, "b677b627f6201fb57c8ccd26b94ffe8a");
    assert_eq!(b.hash, "d537816ca653665703683ac409b3c7ce");
    let b = Block {
        timestamp: -7,
        worker_name: "Default-Worker".to_string(),
        solution_steps: "0123456789".to_string(),
        reward: "15".to_string(),
        difficulty: u32::MAX,
        ..b
    };
    assert_eq!(b.compute_hash(), "bb036464318612c8e17287926be7827a");
}

#[test]
fn chains_in_order_are_valid() {
    assert_eq!(verify_blockchain(&vec![]), ChainVerdict::Valid);
    for n in 1..5 {
        assert_eq!(verify_blockchain(&chain(n)), ChainVerdict::Valid);
    }
}

#[test]
fn first_block_is_not_checked() {
    let mut blocks = chain(3);
    blocks[0].miner = "someone".to_string();
    assert_eq!(verify_blockchain(&blocks), ChainVerdict::Valid);
}

#[test]
fn missing_block_breaks_the_chain() {
    let mut blocks = chain(4);
    blocks.remove(2);
    assert_eq!(verify_blockchain(&blocks), ChainVerdict::Broken);
}

#[test]
fn changed_hash_breaks_the_chain_behind_it() {
    let mut blocks = chain(3);
    blocks[0].hash = "0".repeat(32);
    assert_eq!(verify_blockchain(&blocks), ChainVerdict::Broken);
    let mut blocks = chain(3);
    blocks[2].prev_hash = "0".repeat(32);
    blocks[2].hash = blocks[2].compute_hash();
    assert_eq!(verify_blockchain(&blocks), ChainVerdict::Broken);
}

#[test]
fn changed_index_breaks_the_chain() {
    let mut blocks = chain(3);
    blocks[2].index = 3;
    blocks[2].hash = blocks[2].compute_hash();
    assert_eq!(verify_blockchain(&blocks), ChainVerdict::Broken);
}

#[test]
fn changed_field_is_tampering() {
    let changes: [fn(&mut Block); 6] = [
        |b| b.miner.push('0'),
        |b| b.worker_name.clear(),
        |b| b.solution_steps.push('!'),
        |b| b.reward = "15".to_string(),
        |b| b.timestamp += 1,
        |b| b.difficulty += 1,
    ];
    for change in changes {
        let mut blocks = chain(4);
        change(&mut blocks[2]);
        assert_eq!(verify_blockchain(&blocks), ChainVerdict::Tampered);
    }
}

#[test]
fn first_fault_gives_the_verdict() {
    let mut blocks = chain(5);
    blocks[2].reward = "15".to_string();
    blocks[4].index = 9;
    assert_eq!(verify_blockchain(&blocks), ChainVerdict::Tampered);
    let mut blocks = chain(5);
    blocks[2].index = 9;
    blocks[4].reward = "15".to_string();
    assert_eq!(verify_blockchain(&blocks), ChainVerdict::Broken);
}

#[test]
fn start_of_a_valid_chain_is_valid() {
    let mut blocks = chain(6);
    while !blocks.is_empty() {
        assert_eq!(verify_blockchain(&blocks), ChainVerdict::Valid);
        blocks.pop();
    }
}

#[test]
fn index_without_successor_has_no_verdict() {
    let mut last = block(u64::MAX, "p");
    last.hash = "q".to_string();
    let next = block(0, "q");
    assert_eq!(try_verify_blockchain(&vec![last, next]), None);
    let mut blocks = chain(2);
    blocks.push(block(9, "p"));
    blocks.push(block(u64::MAX, "p"));
    blocks.push(block(0, "p"));
    assert_eq!(try_verify_blockchain(&blocks), Some(ChainVerdict::Broken));
    assert_eq!(try_verify_blockchain(&vec![block(u64::MAX, "p")]), Some(ChainVerdict::Valid));
}
