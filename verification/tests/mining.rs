use novamind::amount::Amount;
use novamind::chain::{genesis_block_at, verify_blockchain, Block, ChainVerdict};
use novamind::mining::{
    adjust_difficulty, begin_mining, cap_reward, check_mine_request, default_worker_name,
    enter_mining, extend_tip, finish_mining, place_block, place_block_at, reward_terms, settle, BlockSlot, MineRequest,
    MineTicket, Paid, Placement, Tip,
};
use novamind::status::Status;
use novamind::throttle::RequestThrottle;

const SECOND: u128 = 1_000_000_000;

fn amount(x: f64) -> Amount {
    Amount { bits: x.to_bits() }
}

fn request() -> MineRequest {
    MineRequest {
        miner: "nvd_00112233".to_string(),
        worker_name: " Rig-1 ".to_string(),
        solution_steps: "  step one, step two\n".to_string(),
        device_power_share: amount(1.0),
        ai_task_id: None,
    }
}

fn ticket() -> MineTicket {
    check_mine_request(request(), amount(10.0)).unwrap()
}

fn tip_of(b: &Block) -> Tip {
    Tip { index: b.index, timestamp: b.timestamp, hash: b.hash.clone() }
}

fn paid(x: f64) -> Paid {
    cap_reward(amount(x))
}

fn copy_of(b: &Block) -> Block {
    Block {
        index: b.index,
        timestamp: b.timestamp,
        miner: b.miner.clone(),
        worker_name: b.worker_name.clone(),
        solution_steps: b.solution_steps.clone(),
        prev_hash: b.prev_hash.clone(),
        hash: b.hash.clone(),
        reward: b.reward.clone(),
        difficulty: b.difficulty,
    }
}

fn refusal(req: MineRequest, supply: f64) -> Option<Status> {
    check_mine_request(req, amount(supply)).err()
}

#[test]
fn worker_without_a_name() {
    assert_eq!(default_worker_name(), "Default-Worker");
    let mut r = request();
    r.worker_name = " \t ".to_string();
    assert_eq!(check_mine_request(r, amount(0.0)).unwrap().worker_name, "Default-Worker");
}

#[test]
fn accepted_request_has_its_texts_trimmed() {
    let t = ticket();
    assert_eq!(t.miner, "nvd_00112233");
    assert_eq!(t.worker_name, "Rig-1");
    assert_eq!(t.solution_steps, "step one, step two");
    assert_eq!(t.device_power_share, amount(1.0));
    assert!(t.ai_task_id.is_none());
}

#[test]
fn share_of_device_power_has_bounds() {
    for share in [0.0, -0.0, -1.0, 1000.0000000000001, f64::INFINITY, f64::NEG_INFINITY] {
        let mut r = request();
        r.device_power_share = amount(share);
        assert_eq!(refusal(r, 10.0), Some(Status::BadRequest), "{}", share);
    }
    for share in [f64::MIN_POSITIVE, 0.5, 1000.0] {
        let mut r = request();
        r.device_power_share = amount(share);
        assert_eq!(refusal(r, 10.0), None, "{}", share);
    }
}

#[test]
fn miner_needs_an_address() {
    let mut r = request();
    r.miner = "nvd_0011223".to_string();
    assert_eq!(refusal(r, 10.0), Some(Status::BadRequest));
}

#[test]
fn solution_steps_take_10_to_500_bytes() {
    let cases = [
        ("123456789".to_string(), false),
        ("1234567890".to_string(), true),
        ("   123456789   ".to_string(), false),
        ("\u{e9}\u{e9}\u{e9}\u{e9}\u{e9}".to_string(), true),
        ("s".repeat(500), true),
        ("s".repeat(501), false),
        ("\u{e9}".repeat(251), false),
    ];
    for (steps, accepted) in cases {
        let mut r = request();
        r.solution_steps = steps;
        let expected = if accepted { None } else { Some(Status::BadRequest) };
        assert_eq!(refusal(r, 10.0), expected);
    }
}

#[test]
fn full_supply_stops_mining() {
    assert_eq!(refusal(request(), 19_000_000.0), Some(Status::Forbidden));
    assert_eq!(refusal(request(), 18_999_999.999999996), None);
    let mut r = request();
    r.miner.clear();
    assert_eq!(refusal(r, 19_000_000.0), Some(Status::BadRequest));
}

#[test]
fn mining_passes_the_throttle_first() {
    let mut t = RequestThrottle::new();
    let mut bad = request();
    bad.miner.clear();
    let r = begin_mining(&mut t, "10.0.0.1", 0, bad, amount(10.0));
    assert_eq!(r.err(), Some(Status::TooManyRequests));
    let r = begin_mining(&mut t, "10.0.0.1", 2 * SECOND, request(), amount(10.0));
    assert_eq!(r.unwrap().solution_steps, "step one, step two");
    let r = begin_mining(&mut t, "10.0.0.1", 4 * SECOND - 1, request(), amount(10.0));
    assert_eq!(r.err(), Some(Status::TooManyRequests));
    let mut bad = request();
    bad.miner.clear();
    let r = begin_mining(&mut t, "10.0.0.1", 4 * SECOND, bad, amount(10.0));
    assert_eq!(r.err(), Some(Status::BadRequest));
}

#[test]
fn difficulty_follows_the_gap() {
    for (before, gap, after) in [
        (1, 9, 2),
        (1, -100, 2),
        (3, 10, 3),
        (3, 60, 3),
        (3, 61, 2),
        (1, 61, 1),
        (0, 61, 0),
        (2, i64::MAX, 1),
    ] {
        let mut d: u32 = before;
        adjust_difficulty(&mut d, gap);
        assert_eq!(d, after);
    }
}

#[test]
fn slot_carries_the_difficulty_before_it() {
    let mut d: u32 = 4;
    let tip = Tip { index: 7, timestamp: 100, hash: "ab".to_string() };
    let slot = extend_tip(tip, 105, &mut d);
    assert_eq!(d, 5);
    assert_eq!(slot.index, 8);
    assert_eq!(slot.timestamp, 105);
    assert_eq!(slot.prev_hash, "ab");
    assert_eq!(slot.difficulty, 4);
}

#[test]
fn numbers_out_of_range_find_no_place() {
    let mut d: u32 = 1;
    let tip = Tip { index: u64::MAX, timestamp: 0, hash: String::new() };
    assert!(matches!(place_block_at(tip, 0, &mut d), Placement::OutOfRange));
    let tip = Tip { index: 0, timestamp: i64::MIN, hash: String::new() };
    assert!(matches!(place_block_at(tip, 0, &mut d), Placement::OutOfRange));
    assert_eq!(d, 1);
    d = u32::MAX;
    let tip = Tip { index: 0, timestamp: 0, hash: String::new() };
    assert!(matches!(place_block_at(tip, 9, &mut d), Placement::OutOfRange));
    assert_eq!(d, u32::MAX);
    let tip = Tip { index: 0, timestamp: 0, hash: String::new() };
    assert!(matches!(place_block_at(tip, 10, &mut d), Placement::Placed(_)));
}

#[test]
fn placing_reads_the_clock() {
    let mut d: u32 = 3;
    let tip = Tip { index: 1, timestamp: 0, hash: "cd".to_string() };
    match place_block(Some(tip), &mut d) {
        Placement::Placed(slot) => {
            assert_eq!(slot.index, 2);
            assert!(slot.timestamp > 1_600_000_000);
            assert_eq!(slot.prev_hash, "cd");
            assert_eq!(slot.difficulty, 3);
        }
        other => panic!("{:?}", other),
    }
    assert_eq!(d, 2);
}

#[test]
fn unreadable_tip_is_an_internal_error() {
    let mut d: u32 = 3;
    let r = place_block(None, &mut d);
    assert!(matches!(r, Placement::Refused(Status::InternalServerError)));
    assert_eq!(d, 3);
}

#[test]
fn terms_of_the_reward() {
    let slot = BlockSlot { index: 8, timestamp: 0, prev_hash: String::new(), difficulty: 1 };
    let mut t = ticket();
    let terms = reward_terms(&t, &slot, 1);
    assert_eq!(terms.index, 8);
    assert_eq!(terms.bonus, amount(0.0));
    assert!(!terms.damped);
    t.ai_task_id = Some("ai_task_1".to_string());
    assert_eq!(reward_terms(&t, &slot, 0).bonus, amount(0.0));
    assert_eq!(reward_terms(&t, &slot, 1).bonus, amount(2.0));
    t.device_power_share = amount(1.0000000000000002);
    assert!(reward_terms(&t, &slot, 0).damped);
}

#[test]
fn reward_is_capped_at_fifteen() {
    assert_eq!(cap_reward(amount(15.000000000000002)).coins(), amount(15.0));
    assert_eq!(cap_reward(amount(f64::INFINITY)).coins(), amount(15.0));
    for x in [15.0, 9.5, 0.0, -1.0] {
        assert_eq!(cap_reward(amount(x)).coins(), amount(x));
    }
}

#[test]
fn block_is_made_within_the_supply_only() {
    let slot = || BlockSlot { index: 1, timestamp: 5, prev_hash: "p".to_string(), difficulty: 2 };
    let settled = settle(ticket(), slot(), paid(9.5), "9.5".to_string(), amount(19_000_000.0)).unwrap();
    let b = settled.block();
    assert_eq!(b.index, 1);
    assert_eq!(b.timestamp, 5);
    assert_eq!(b.miner, "nvd_00112233");
    assert_eq!(b.worker_name, "Rig-1");
    assert_eq!(b.solution_steps, "step one, step two");
    assert_eq!(b.prev_hash, "p");
    assert_eq!(b.reward, "9.5");
    assert_eq!(b.difficulty, 2);
    assert_eq!(b.hash, b.compute_hash());
    let r = settle(ticket(), slot(), paid(9.5), "9.5".to_string(), amount(19_000_000.000000004));
    assert_eq!(r.err(), Some(Status::Forbidden));
}

#[test]
fn mined_block_with_a_known_hash() {
    let mut d: u32 = 1;
    let slot = extend_tip(tip_of(&genesis_block_at(1_700_000_000)), 1_700_000_100, &mut d);
    let b = settle(
        ticket(),
        slot,
        paid(9.523809523809524),
        "9.523809523809524".to_string(),
        amount(19.5),
    )
    .unwrap();
    assert_eq!(b.block().hash, "d537816ca653665703683ac409b3c7ce");
}

#[test]
fn mining_keeps_the_chain_valid() {
    let mut d: u32 = 1;
    let mut blocks = vec![genesis_block_at(1_700_000_000)];
    for i in 1..20i64 {
        let slot = extend_tip(tip_of(blocks.last().unwrap()), 1_700_000_000 + 7 * i * i, &mut d);
        let reward = 10.0 / (1.0 + (i as f64) * 0.05);
        let text = format!("{}", reward);
        let settled = settle(ticket(), slot, paid(reward), text, amount(100.0)).unwrap();
        blocks.push(copy_of(settled.block()));
        assert_eq!(verify_blockchain(&blocks), ChainVerdict::Valid);
    }
}

#[test]
fn stored_block_moves_the_supply() {
    let slot = BlockSlot { index: 1, timestamp: 5, prev_hash: "p".to_string(), difficulty: 2 };
    let settled = settle(ticket(), slot, paid(9.5), "9.5".to_string(), amount(19.5)).unwrap();
    let mut supply = amount(10.0);
    assert_eq!(finish_mining(&mut supply, &settled, false), Status::InternalServerError);
    assert_eq!(supply, amount(10.0));
    assert_eq!(finish_mining(&mut supply, &settled, true), Status::Created);
    assert_eq!(supply, amount(19.5));
}

#[test]
fn entering_is_what_mining_begins_with() {
    let mut t = RequestThrottle::new();
    assert_eq!(enter_mining(&mut t, "10.0.0.1", 0), Err(Status::TooManyRequests));
    assert_eq!(enter_mining(&mut t, "10.0.0.1", 2 * SECOND), Ok(()));
    assert_eq!(enter_mining(&mut t, "10.0.0.1", 4 * SECOND - 1), Err(Status::TooManyRequests));
}

#[test]
fn settled_block_pays_fifteen_at_most() {
    for (raw, expected) in [(9.5, 9.5), (15.0, 15.0), (16.0, 15.0)] {
        let slot = BlockSlot { index: 1, timestamp: 5, prev_hash: "p".to_string(), difficulty: 2 };
        let text = format!("{}", expected);
        let settled = settle(ticket(), slot, paid(raw), text, amount(30.0)).unwrap();
        assert_eq!(settled.reward(), amount(expected));
    }
}
