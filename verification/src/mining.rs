//! Mining: from a request to the block that it adds to the chain.
//!
//! A request passes `begin_mining` (`enter_mining`, then `check_mine_request`), gets its
//! place in the chain from `place_block`, its reward from the terms of `reward_terms` and
//! the cap of `cap_reward`, becomes a block in `settle`, and ends in `finish_mining`. The
//! reward itself and its sum with the supply are worked out between, by the caller.
use crate::address::{is_nvd_address, validate_nvd_address};
use crate::amount::{
    law_bounds_by_pattern, law_whole_patterns, Amount, FIFTEEN, NINETEEN_MILLION, ONE, THOUSAND,
    TWO, ZERO,
};
use crate::chain::{law_extending_keeps_valid, verdict_of, Block, BlockView, ChainVerdict};
use crate::clock::utc_seconds;
use crate::digest::md5_hex_of;
use crate::status::{write_status, written_status, Status};
use crate::text::{byte_count, byte_len, trim, trimmed};
use crate::throttle::RequestThrottle;
use vstd::prelude::*;

verus! {

/// Seconds that a host has to leave between mining requests.
pub const MINE_LIMIT_SECONDS: u64 = 2;

/// A request to mine a block.
#[derive(Debug)]
pub struct MineRequest {
    pub miner: String,
    pub worker_name: String,
    pub solution_steps: String,
    pub device_power_share: Amount,
    pub ai_task_id: Option<String>,
}

/// A request that was accepted, with its texts trimmed.
#[derive(Debug)]
pub struct MineTicket {
    pub miner: String,
    pub worker_name: String,
    pub solution_steps: String,
    pub device_power_share: Amount,
    pub ai_task_id: Option<String>,
}

/// The last block of the chain, as far as mining looks at it.
#[derive(Debug)]
pub struct Tip {
    pub index: u64,
    pub timestamp: i64,
    pub hash: String,
}

/// The place in the chain that a new block takes.
#[derive(Debug)]
pub struct BlockSlot {
    pub index: u64,
    pub timestamp: i64,
    pub prev_hash: String,
    pub difficulty: u32,
}

/// What the reward of a block is worked out from: its index, the bonus, and whether the
/// share of device power lowers it.
#[derive(Clone, Copy, Debug, PartialEq, Eq, Structural)]
pub struct RewardTerms {
    pub index: u64,
    pub bonus: Amount,
    pub damped: bool,
}

/// The worker that a request without one counts for.
pub fn default_worker_name() -> (name: String)
    ensures
        name@ == "Default-Worker"@,
{
    "Default-Worker".to_owned()
}

/// A share of device power is refused at zero or less and above a thousand. A pattern that
/// stands for no amount is neither.
pub open spec fn share_accepted(share: Amount) -> bool {
    !share.stays_within(0) && !share.exceeds(1000)
}

/// The worker name that a block records.
pub open spec fn worker_label(name: Seq<char>) -> Seq<char> {
    if trimmed(name).len() == 0 {
        "Default-Worker"@
    } else {
        trimmed(name)
    }
}

/// Why a request is refused while `supply` is in circulation.
pub open spec fn mine_refusal(req: MineRequest, supply: Amount) -> Option<Status> {
    if !share_accepted(req.device_power_share) || !is_nvd_address(req.miner@) {
        Some(Status::BadRequest)
    } else if !(10 <= byte_len(trimmed(req.solution_steps@)) <= 500) {
        Some(Status::BadRequest)
    } else if supply.reaches(19_000_000) {
        Some(Status::Forbidden)
    } else {
        None
    }
}

/// Whether `ticket` is the accepted form of `req`.
pub open spec fn ticket_of(req: MineRequest, ticket: MineTicket) -> bool {
    &&& ticket.miner == req.miner
    &&& ticket.worker_name@ == worker_label(req.worker_name@)
    &&& ticket.solution_steps@ == trimmed(req.solution_steps@)
    &&& ticket.device_power_share == req.device_power_share
    &&& ticket.ai_task_id == req.ai_task_id
}

/// Accepts or refuses a request while `supply` is in circulation.
pub fn check_mine_request(req: MineRequest, supply: Amount) -> (r: Result<MineTicket, Status>)
    ensures
        match r {
            Ok(ticket) => mine_refusal(req, supply) is None && ticket_of(req, ticket),
            Err(status) => mine_refusal(req, supply) == Some(status),
        },
{
    proof {
        law_whole_patterns();
    }
    let share = req.device_power_share;
    if share.is_at_most(Amount { bits: ZERO }) || (Amount { bits: THOUSAND }).is_below(share)
        || !validate_nvd_address(req.miner.as_str()) {
        return Err(Status::BadRequest);
    }
    let steps = trim(req.solution_steps.as_str());
    let n: usize = byte_count(steps);
    if n < 10 || n > 500 {
        return Err(Status::BadRequest);
    }
    if (Amount { bits: NINETEEN_MILLION }).is_at_most(supply) {
        return Err(Status::Forbidden);
    }
    let solution_steps = steps.to_owned();
    let worker = trim(req.worker_name.as_str());
    let worker_name = if worker.is_empty() {
        default_worker_name()
    } else {
        worker.to_owned()
    };
    Ok(
        MineTicket {
            miner: req.miner,
            worker_name,
            solution_steps,
            device_power_share: req.device_power_share,
            ai_task_id: req.ai_task_id,
        },
    )
}

/// Notes a mining request of `ip` at `now`, and refuses it where the throttle does.
pub fn enter_mining(throttle: &mut RequestThrottle, ip: &str, now: u128) -> (r: Result<(), Status>)
    requires
        old(throttle).wf(),
        old(throttle)@.counter_fits(ip@, MINE_LIMIT_SECONDS, now),
    ensures
        final(throttle).wf(),
        final(throttle)@ == old(throttle)@.after(ip@, MINE_LIMIT_SECONDS, now),
        r == if old(throttle)@.admits(ip@, MINE_LIMIT_SECONDS, now) {
            Ok::<(), Status>(())
        } else {
            Err(Status::TooManyRequests)
        },
{
    if throttle.let_in(ip, MINE_LIMIT_SECONDS, now) {
        Ok(())
    } else {
        Err(Status::TooManyRequests)
    }
}

/// Notes a mining request of `ip` at `now`, and accepts or refuses it.
pub fn begin_mining(
    throttle: &mut RequestThrottle,
    ip: &str,
    now: u128,
    req: MineRequest,
    supply: Amount,
) -> (r: Result<MineTicket, Status>)
    requires
        old(throttle).wf(),
        old(throttle)@.counter_fits(ip@, MINE_LIMIT_SECONDS, now),
    ensures
        final(throttle).wf(),
        final(throttle)@ == old(throttle)@.after(ip@, MINE_LIMIT_SECONDS, now),
        ({
            let admitted = old(throttle)@.admits(ip@, MINE_LIMIT_SECONDS, now);
            match r {
                Ok(ticket) => admitted && mine_refusal(req, supply) is None && ticket_of(
                    req,
                    ticket,
                ),
                Err(status) => if admitted {
                    mine_refusal(req, supply) == Some(status)
                } else {
                    status == Status::TooManyRequests
                },
            }
        }),
{
    match enter_mining(throttle, ip, now) {
        Ok(()) => check_mine_request(req, supply),
        Err(status) => Err(status),
    }
}

/// The difficulty after a block that came `gap` seconds behind the one before it.
pub open spec fn next_difficulty(difficulty: u32, gap: int) -> int {
    if gap < 10 {
        difficulty + 1
    } else if gap > 60 && difficulty > 1 {
        difficulty - 1
    } else {
        difficulty as int
    }
}

/// Whether the numbers of a block behind `tip` at `timestamp` fit their types.
pub open spec fn slot_fits(tip: Tip, timestamp: i64, difficulty: u32) -> bool {
    &&& i64::MIN <= timestamp - tip.timestamp <= i64::MAX
    &&& next_difficulty(difficulty, timestamp - tip.timestamp) <= u32::MAX
    &&& tip.index < u64::MAX
}

/// Whether `slot` is the place behind `tip` at `timestamp`. A block carries the difficulty
/// that held before it.
pub open spec fn slot_behind(tip: Tip, timestamp: i64, difficulty: u32, slot: BlockSlot) -> bool {
    &&& slot.index == tip.index + 1
    &&& slot.timestamp == timestamp
    &&& slot.prev_hash == tip.hash
    &&& slot.difficulty == difficulty
}

/// Adjusts the difficulty to a block that came `gap` seconds behind the one before it.
pub fn adjust_difficulty(difficulty: &mut u32, gap: i64)
    requires
        next_difficulty(*old(difficulty), gap as int) <= u32::MAX,
    ensures
        *final(difficulty) == next_difficulty(*old(difficulty), gap as int),
{
    if gap < 10 {
        *difficulty = *difficulty + 1;
    } else if gap > 60 && *difficulty > 1 {
        *difficulty = *difficulty - 1;
    }
}

/// Takes the place behind `tip` at `timestamp`, and adjusts the difficulty.
pub fn extend_tip(tip: Tip, timestamp: i64, difficulty: &mut u32) -> (slot: BlockSlot)
    requires
        slot_fits(tip, timestamp, *old(difficulty)),
    ensures
        slot_behind(tip, timestamp, *old(difficulty), slot),
        *final(difficulty) == next_difficulty(*old(difficulty), timestamp - tip.timestamp),
{
    let held: u32 = *difficulty;
    adjust_difficulty(difficulty, timestamp - tip.timestamp);
    BlockSlot {
        index: tip.index + 1,
        timestamp,
        prev_hash: tip.hash,
        difficulty: held,
    }
}

/// Whether a new block finds its place.
#[derive(Debug)]
pub enum Placement {
    /// The place that the block takes.
    Placed(BlockSlot),
    /// The request is answered with a status.
    Refused(Status),
    /// The numbers of the block do not fit their types.
    OutOfRange,
}

/// Whether `r`, and the difficulty `after`, are right for a block behind `tip` at
/// `timestamp` while `difficulty` holds.
pub open spec fn placement_at(
    tip: Tip,
    timestamp: i64,
    difficulty: u32,
    r: Placement,
    after: u32,
) -> bool {
    if slot_fits(tip, timestamp, difficulty) {
        r matches Placement::Placed(slot) && slot_behind(tip, timestamp, difficulty, slot) && after
            == next_difficulty(difficulty, timestamp - tip.timestamp)
    } else {
        r == Placement::OutOfRange && after == difficulty
    }
}

/// Takes the place behind `tip`, the last block as far as it could be read, at the time of
/// the call, and adjusts the difficulty.
pub fn place_block(tip: Option<Tip>, difficulty: &mut u32) -> (r: Placement)
    ensures
        match tip {
            Some(tip) => exists|timestamp: i64|
                timestamp >= 0 && #[trigger] placement_at(
                    tip,
                    timestamp,
                    *old(difficulty),
                    r,
                    *final(difficulty),
                ),
            None => r == Placement::Refused(Status::InternalServerError) && *final(difficulty)
                == *old(difficulty),
        },
{
    match tip {
        Some(tip) => place_block_at(tip, utc_seconds(), difficulty),
        None => Placement::Refused(Status::InternalServerError),
    }
}

/// Takes the place behind `tip` at `timestamp`, and adjusts the difficulty; does neither
/// where the numbers do not fit.
pub fn place_block_at(tip: Tip, timestamp: i64, difficulty: &mut u32) -> (r: Placement)
    ensures
        placement_at(tip, timestamp, *old(difficulty), r, *final(difficulty)),
{
    let gap: i64 = match timestamp.checked_sub(tip.timestamp) {
        Some(gap) => gap,
        None => {
            return Placement::OutOfRange;
        },
    };
    if tip.index == u64::MAX || (gap < 10 && *difficulty == u32::MAX) {
        return Placement::OutOfRange;
    }
    Placement::Placed(extend_tip(tip, timestamp, difficulty))
}

/// The terms of the reward: two more where a task was marked verified (`task_rows` rows
/// changed), lowered where the share of device power is above one.
pub fn reward_terms(ticket: &MineTicket, slot: &BlockSlot, task_rows: usize) -> (terms: RewardTerms)
    ensures
        terms.index == slot.index,
        terms.bonus.bits == if ticket.ai_task_id is Some && task_rows > 0 {
            TWO
        } else {
            ZERO
        },
        terms.damped == ticket.device_power_share.exceeds(1),
{
    proof {
        law_whole_patterns();
    }
    let bonus = if ticket.ai_task_id.is_some() && task_rows > 0 {
        Amount { bits: TWO }
    } else {
        Amount { bits: ZERO }
    };
    RewardTerms {
        index: slot.index,
        bonus,
        damped: (Amount { bits: ONE }).is_below(ticket.device_power_share),
    }
}

/// No block brings more than fifteen.
pub open spec fn capped(raw: Amount) -> Amount {
    if raw.exceeds(15) {
        Amount { bits: FIFTEEN }
    } else {
        raw
    }
}

/// A reward as it is paid: never above fifteen.
#[derive(Clone, Copy, Debug)]
pub struct Paid {
    amount: Amount,
}

impl Paid {
    #[verifier::type_invariant]
    spec fn is_capped(self) -> bool {
        !self.amount.exceeds(15)
    }

    /// What is paid.
    pub closed spec fn amount(&self) -> Amount {
        self.amount
    }

    /// What is paid.
    pub fn coins(&self) -> (a: Amount)
        ensures
            a == self.amount(),
            !a.exceeds(15),
    {
        proof {
            use_type_invariant(self);
        }
        self.amount
    }
}

/// The reward that is paid where `raw` was worked out.
pub fn cap_reward(raw: Amount) -> (paid: Paid)
    ensures
        paid.amount() == capped(raw),
        !paid.amount().exceeds(15),
{
    proof {
        law_whole_patterns();
    }
    if (Amount { bits: FIFTEEN }).is_below(raw) {
        Paid { amount: Amount { bits: FIFTEEN } }
    } else {
        Paid { amount: raw }
    }
}

/// The block that `ticket` makes in the place `slot`.
pub open spec fn mined_block(ticket: MineTicket, slot: BlockSlot, reward: Seq<char>) -> BlockView {
    let unsealed = BlockView {
        index: slot.index,
        timestamp: slot.timestamp,
        miner: ticket.miner@,
        worker_name: ticket.worker_name@,
        solution_steps: ticket.solution_steps@,
        prev_hash: slot.prev_hash@,
        hash: Seq::empty(),
        reward,
        difficulty: slot.difficulty,
    };
    BlockView { hash: md5_hex_of(unsealed.preimage()), ..unsealed }
}

/// Whether the supply is not above nineteen million. A pattern that stands for no amount is
/// not.
pub open spec fn within_cap(supply: Amount) -> bool {
    !supply.exceeds(19_000_000)
}

/// A block that was made within the cap, with the reward that it pays and the supply that it
/// brings about.
#[derive(Debug)]
pub struct Settled {
    block: Block,
    paid: Amount,
    total: Amount,
}

impl Settled {
    #[verifier::type_invariant]
    spec fn made_within_caps(self) -> bool {
        !self.paid.exceeds(15) && within_cap(self.total)
    }

    /// What the block holds.
    pub closed spec fn block_view(&self) -> BlockView {
        self.block@
    }

    /// The reward that the block pays.
    pub closed spec fn paid(&self) -> Amount {
        self.paid
    }

    /// The supply with the block's reward.
    pub closed spec fn total(&self) -> Amount {
        self.total
    }

    /// The block.
    pub fn block(&self) -> (b: &Block)
        ensures
            b@ == self.block_view(),
    {
        &self.block
    }

    /// The reward that the block pays, fifteen at most.
    pub fn reward(&self) -> (a: Amount)
        ensures
            a == self.paid(),
            !a.exceeds(15),
    {
        proof {
            use_type_invariant(self);
        }
        self.paid
    }
}

/// Makes the block that pays `paid`, unless `total`, the supply with the reward, is above
/// nineteen million. `reward` is the decimal text of the reward.
pub fn settle(
    ticket: MineTicket,
    slot: BlockSlot,
    paid: Paid,
    reward: String,
    total: Amount,
) -> (r: Result<Settled, Status>)
    ensures
        match r {
            Ok(settled) => {
                &&& within_cap(total)
                &&& settled.block_view() == mined_block(ticket, slot, reward@)
                &&& settled.paid() == paid.amount()
                &&& !settled.paid().exceeds(15)
                &&& settled.total() == total
            },
            Err(status) => !within_cap(total) && status == Status::Forbidden,
        },
{
    proof {
        law_whole_patterns();
    }
    if (Amount { bits: NINETEEN_MILLION }).is_below(total) {
        return Err(Status::Forbidden);
    }
    let mut block = Block {
        index: slot.index,
        timestamp: slot.timestamp,
        miner: ticket.miner,
        worker_name: ticket.worker_name,
        solution_steps: ticket.solution_steps,
        prev_hash: slot.prev_hash,
        hash: String::new(),
        reward,
        difficulty: slot.difficulty,
    };
    block.hash = block.compute_hash();
    Ok(Settled { block, paid: paid.coins(), total })
}

/// The supply once a block for `total` was stored, or could not be.
pub open spec fn supply_after(supply: Amount, total: Amount, stored: bool) -> Amount {
    if stored {
        total
    } else {
        supply
    }
}

/// Ends a request whose block was stored, or could not be: a stored block brings the supply
/// to the total that it was made for. A supply within the cap stays within it.
pub fn finish_mining(supply: &mut Amount, settled: &Settled, stored: bool) -> (s: Status)
    ensures
        s == written_status(stored),
        *final(supply) == supply_after(*old(supply), settled.total(), stored),
        within_cap(settled.total()),
        within_cap(*old(supply)) ==> within_cap(*final(supply)),
{
    proof {
        use_type_invariant(settled);
    }
    if stored {
        *supply = settled.total;
    }
    write_status(stored)
}

/// Whether `settle` can have made `settled`.
pub open spec fn made_by_settle(settled: Settled) -> bool {
    exists|ticket: MineTicket, slot: BlockSlot, paid: Paid, reward: String, total: Amount|
        #[trigger] call_ensures(
            settle,
            (ticket, slot, paid, reward, total),
            Ok::<Settled, Status>(settled),
        )
}

/// A whole request keeps the supply within nineteen million: `finish_mining` brings it to
/// the total that `settle` let pass, or leaves it.
pub proof fn law_request_keeps_supply_within_cap(supply: Amount, settled: Settled, stored: bool)
    requires
        within_cap(supply),
        made_by_settle(settled),
    ensures
        within_cap(settled.total()),
        within_cap(supply_after(supply, settled.total(), stored)),
{
}

/// No block that is made pays more than fifteen.
pub proof fn law_no_block_pays_more_than_fifteen(settled: Settled)
    requires
        made_by_settle(settled),
    ensures
        !settled.paid().exceeds(15),
{
}

/// The end of a mining request: the block that was made, and whether it was stored.
pub struct Attempt {
    pub settled: Settled,
    pub stored: bool,
}

/// The supply after `attempts`, in order.
pub open spec fn supply_after_all(supply: Amount, attempts: Seq<Attempt>) -> Amount
    decreases attempts.len(),
{
    if attempts.len() == 0 {
        supply
    } else {
        let a = attempts.last();
        supply_after(supply_after_all(supply, attempts.drop_last()), a.settled.total(), a.stored)
    }
}

/// The supply never passes nineteen million, however many requests end.
pub proof fn law_supply_stays_within_cap(supply: Amount, attempts: Seq<Attempt>)
    requires
        within_cap(supply),
        forall|i: int| 0 <= i < attempts.len() ==> made_by_settle((#[trigger] attempts[i]).settled),
    ensures
        within_cap(supply_after_all(supply, attempts)),
    decreases attempts.len(),
{
    if attempts.len() > 0 {
        let earlier = attempts.drop_last();
        let a = attempts.last();
        assert(forall|i: int| 0 <= i < earlier.len() ==> #[trigger] earlier[i] == attempts[i]);
        law_supply_stays_within_cap(supply, earlier);
        assert(attempts[attempts.len() - 1] == a);
        law_request_keeps_supply_within_cap(
            supply_after_all(supply, earlier),
            a.settled,
            a.stored,
        );
    }
}

/// What mining adds to a valid chain keeps it valid: the block made behind the last one
/// passes the check of the chain.
pub proof fn law_mining_keeps_chain_valid(
    blocks: Seq<BlockView>,
    tip: Tip,
    timestamp: i64,
    difficulty: u32,
    ticket: MineTicket,
    slot: BlockSlot,
    reward: Seq<char>,
)
    requires
        verdict_of(blocks) == ChainVerdict::Valid,
        blocks.len() > 0,
        tip.index == blocks.last().index,
        tip.hash@ == blocks.last().hash,
        slot_behind(tip, timestamp, difficulty, slot),
    ensures
        verdict_of(blocks.push(mined_block(ticket, slot, reward))) == ChainVerdict::Valid,
{
    let block = mined_block(ticket, slot, reward);
    assert(block.preimage() == BlockView { hash: Seq::empty(), ..block }.preimage());
    law_extending_keeps_valid(blocks, block);
}

/// Whether `block` was made by mining behind `previous`.
pub open spec fn mined_behind(previous: BlockView, block: BlockView) -> bool {
    exists|ticket: MineTicket, slot: BlockSlot, reward: Seq<char>|
        {
            &&& block == #[trigger] mined_block(ticket, slot, reward)
            &&& slot.index == previous.index + 1
            &&& slot.prev_hash@ == previous.hash
        }
}

/// A chain that grew by mining alone, from whatever first block, is valid.
pub proof fn law_mined_chain_is_valid(blocks: Seq<BlockView>)
    requires
        forall|i: int|
            1 <= i < blocks.len() ==> mined_behind(blocks[i - 1], #[trigger] blocks[i]),
    ensures
        verdict_of(blocks) == ChainVerdict::Valid,
{
    assert forall|i: int| 1 <= i < blocks.len() implies (#[trigger] blocks[i]).follows(
        blocks[i - 1],
    ) && blocks[i].sealed() by {
        assert(mined_behind(blocks[i - 1], blocks[i]));
        let (ticket, slot, reward) = choose|
            ticket: MineTicket,
            slot: BlockSlot,
            reward: Seq<char>,
        |
            {
                &&& blocks[i] == #[trigger] mined_block(ticket, slot, reward)
                &&& slot.index == blocks[i - 1].index + 1
                &&& slot.prev_hash@ == blocks[i - 1].hash
            };
        let block = mined_block(ticket, slot, reward);
        assert(block.preimage() == BlockView { hash: Seq::empty(), ..block }.preimage());
    }
}

/// Once nineteen million are in circulation no request is accepted.
pub proof fn law_full_supply_stops_mining(req: MineRequest, supply: Amount)
    requires
        supply.reaches(19_000_000),
    ensures
        mine_refusal(req, supply) is Some,
{
}

/// The difficulty moves by one at most, and never below one.
pub proof fn law_difficulty_moves_by_one(difficulty: u32, gap: int)
    ensures
        difficulty - 1 <= next_difficulty(difficulty, gap) <= difficulty + 1,
        difficulty >= 1 ==> next_difficulty(difficulty, gap) >= 1,
        10 <= gap <= 60 ==> next_difficulty(difficulty, gap) == difficulty,
{
}

/// The texts of an accepted request are within their bounds: the worker has a name, and
/// the steps take 10 to 500 bytes with no white space at their ends.
pub proof fn law_accepted_texts(req: MineRequest, supply: Amount, ticket: MineTicket)
    requires
        mine_refusal(req, supply) is None,
        ticket_of(req, ticket),
    ensures
        is_nvd_address(ticket.miner@),
        ticket.worker_name@.len() > 0,
        trimmed(ticket.worker_name@) == ticket.worker_name@,
        10 <= byte_len(ticket.solution_steps@) <= 500,
        trimmed(ticket.solution_steps@) == ticket.solution_steps@,
{
    crate::text::law_trimmed_twice(req.solution_steps@);
    crate::text::law_trimmed_twice(req.worker_name@);
    reveal_strlit("Default-Worker");
}

/// A reward of fifteen or less is paid as it was worked out, one that stands for no amount
/// too, and one above fifteen is paid as fifteen.
pub proof fn law_reward_is_paid(raw: Amount, paid: Paid, coins: Amount)
    requires
        call_ensures(cap_reward, (raw,), paid),
        call_ensures(Paid::coins, (&paid,), coins),
    ensures
        !raw.exceeds(15) ==> capped(raw) == raw && paid.amount() == raw && coins == raw,
        raw.exceeds(15) ==> paid.amount().is_whole(15) && coins.is_whole(15),
        0x402e_0000_0000_0000 < raw.bits <= 0x7ff0_0000_0000_0000 ==> coins.bits
            == 0x402e_0000_0000_0000,
        !(0x402e_0000_0000_0000 < raw.bits <= 0x7ff0_0000_0000_0000) ==> coins.bits == raw.bits,
{
    law_bounds_by_pattern(raw);
    law_whole_patterns();
}

/// When a mining request is accepted, and with what status it is refused otherwise. The
/// share has to be above zero and at most a thousand, or stand for no amount; the miner
/// needs an address; the trimmed steps take 10 to 500 bytes; and less than nineteen million
/// are in circulation. The supply alone is answered with `Forbidden`, and only where nothing
/// else is wrong.
pub proof fn law_answer_to_a_mine_request(
    req: MineRequest,
    supply: Amount,
    r: Result<MineTicket, Status>,
)
    requires
        call_ensures(check_mine_request, (req, supply), r),
    ensures
        ({
            let share = req.device_power_share.bits;
            let fair = 0 < share <= 0x408f_4000_0000_0000 || share as int % 0x8000_0000_0000_0000
                > 0x7ff0_0000_0000_0000;
            let sound = fair && is_nvd_address(req.miner@) && 10 <= byte_len(
                trimmed(req.solution_steps@),
            ) <= 500;
            let spent = 0x4172_1eac_0000_0000 <= supply.bits <= 0x7ff0_0000_0000_0000;
            &&& r is Ok <==> sound && !spent
            &&& r == Err::<MineTicket, Status>(Status::BadRequest) <==> !sound
            &&& r == Err::<MineTicket, Status>(Status::Forbidden) <==> sound && spent
        }),
{
    law_bounds_by_pattern(req.device_power_share);
    law_bounds_by_pattern(supply);
}

/// An accepted request keeps its miner, its share and its task, its steps without the white
/// space around them, and its worker's name likewise, or the default one where nothing is
/// left of it.
pub proof fn law_ticket_of_a_request(req: MineRequest, supply: Amount, ticket: MineTicket)
    requires
        call_ensures(check_mine_request, (req, supply), Ok::<MineTicket, Status>(ticket)),
    ensures
        ticket.miner@ == req.miner@,
        ticket.device_power_share == req.device_power_share,
        ticket.ai_task_id == req.ai_task_id,
        ticket.solution_steps@ == trimmed(req.solution_steps@),
        trimmed(req.worker_name@).len() > 0 ==> ticket.worker_name@ == trimmed(req.worker_name@),
        trimmed(req.worker_name@).len() == 0 ==> ticket.worker_name@ == "Default-Worker"@,
{
}

/// A mining request passes the throttle with a limit of two seconds before it is looked at:
/// one that is stopped there is answered with `TooManyRequests`, and any other one as
/// `check_mine_request` answers it. Either way it is noted.
pub proof fn law_mining_is_throttled(ip: &str, now: u128, req: MineRequest, supply: Amount)
    ensures
        forall|throttle: &mut RequestThrottle, r: Result<(), Status>| #[trigger]
            call_ensures(enter_mining, (throttle, ip, now), r) ==> {
                &&& r is Ok <==> throttle@.admits(ip@, 2, now)
                &&& r is Err <==> r == Err::<(), Status>(Status::TooManyRequests)
                &&& final(throttle)@ == throttle@.after(ip@, 2, now)
            },
        forall|throttle: &mut RequestThrottle, r: Result<MineTicket, Status>| #[trigger]
            call_ensures(begin_mining, (throttle, ip, now, req, supply), r) ==> {
                &&& !throttle@.admits(ip@, 2, now) <==> r == Err::<MineTicket, Status>(
                    Status::TooManyRequests,
                )
                &&& throttle@.admits(ip@, 2, now) ==> (r is Ok <==> mine_refusal(req, supply) is None)
                &&& throttle@.admits(ip@, 2, now) && r is Err ==> mine_refusal(req, supply) == Some(
                    r->Err_0,
                )
                &&& r matches Ok(ticket) ==> ticket_of(req, ticket)
                &&& final(throttle)@ == throttle@.after(ip@, 2, now)
            },
        mine_refusal(req, supply) != Some(Status::TooManyRequests),
        forall|r: Result<MineTicket, Status>| #[trigger]
            call_ensures(check_mine_request, (req, supply), r) ==> {
                &&& r is Ok <==> mine_refusal(req, supply) is None
                &&& r is Err ==> mine_refusal(req, supply) == Some(r->Err_0)
                &&& r matches Ok(ticket) ==> ticket_of(req, ticket)
            },
{
}

/// The difficulty goes up by one behind a gap of less than ten seconds, down by one behind
/// one of more than sixty unless it is one or zero, and stays otherwise.
pub proof fn law_difficulty_follows_the_gap(gap: i64)
    ensures
        forall|difficulty: &mut u32| #[trigger]
            call_ensures(adjust_difficulty, (difficulty, gap), ()) ==> {
                &&& gap < 10 ==> *final(difficulty) == *difficulty + 1
                &&& 10 <= gap <= 60 ==> *final(difficulty) == *difficulty
                &&& gap > 60 && *difficulty > 1 ==> *final(difficulty) == *difficulty - 1
                &&& gap > 60 && *difficulty <= 1 ==> *final(difficulty) == *difficulty
            },
{
}

/// A block takes the index behind the last block's, its hash, the time of its making and the
/// difficulty that held before, and the difficulty moves on by the gap between the times.
/// Only an index at its greatest, a gap that is no 64-bit number, or a difficulty at its
/// greatest that had to go up leave it without a place, and then nothing changes.
pub proof fn law_place_of_a_block(tip: Tip, timestamp: i64)
    ensures
        forall|difficulty: &mut u32, r: Placement| #[trigger]
            call_ensures(place_block_at, (tip, timestamp, difficulty), r) ==> {
                let gap = timestamp - tip.timestamp;
                let fits = {
                    &&& tip.index < 0xffff_ffff_ffff_ffff
                    &&& -0x8000_0000_0000_0000 <= gap < 0x8000_0000_0000_0000
                    &&& gap >= 10 || *difficulty < 0xffff_ffff
                };
                &&& fits ==> {
                    &&& r is Placed
                    &&& r->Placed_0.index == tip.index + 1
                    &&& r->Placed_0.timestamp == timestamp
                    &&& r->Placed_0.prev_hash@ == tip.hash@
                    &&& r->Placed_0.difficulty == *difficulty
                    &&& gap < 10 ==> *final(difficulty) == *difficulty + 1
                    &&& 10 <= gap <= 60 ==> *final(difficulty) == *difficulty
                    &&& gap > 60 && *difficulty > 1 ==> *final(difficulty) == *difficulty - 1
                    &&& gap > 60 && *difficulty <= 1 ==> *final(difficulty) == *difficulty
                }
                &&& !fits ==> r is OutOfRange && *final(difficulty) == *difficulty
            },
        forall|difficulty: &mut u32, slot: BlockSlot| #[trigger]
            call_ensures(extend_tip, (tip, timestamp, difficulty), slot) ==> {
                let gap = timestamp - tip.timestamp;
                &&& slot.index == tip.index + 1
                &&& slot.timestamp == timestamp
                &&& slot.prev_hash@ == tip.hash@
                &&& slot.difficulty == *difficulty
                &&& gap < 10 ==> *final(difficulty) == *difficulty + 1
                &&& 10 <= gap <= 60 ==> *final(difficulty) == *difficulty
                &&& gap > 60 && *difficulty > 1 ==> *final(difficulty) == *difficulty - 1
                &&& gap > 60 && *difficulty <= 1 ==> *final(difficulty) == *difficulty
            },
{
}

/// A block that is placed at the time of the call stands right behind the last block, at a
/// time not before 1970. Without a last block the request fails and nothing changes.
pub proof fn law_place_of_a_block_now(tip: Option<Tip>)
    ensures
        forall|difficulty: &mut u32, r: Placement| #[trigger]
            call_ensures(place_block, (tip, difficulty), r) ==> {
                &&& tip is None <==> r == Placement::Refused(Status::InternalServerError)
                &&& r !is Placed ==> *final(difficulty) == *difficulty
                &&& r is Refused ==> tip is None
                &&& tip is Some && 0 <= tip->0.timestamp && tip->0.index < 0xffff_ffff_ffff_ffff
                    && *difficulty < 0xffff_ffff ==> r is Placed
                &&& r matches Placement::Placed(slot) ==> {
                    let gap = slot.timestamp - tip->0.timestamp;
                    &&& slot.index == tip->0.index + 1
                    &&& slot.timestamp >= 0
                    &&& slot.prev_hash@ == tip->0.hash@
                    &&& slot.difficulty == *difficulty
                    &&& gap < 10 ==> *final(difficulty) == *difficulty + 1
                    &&& 10 <= gap <= 60 ==> *final(difficulty) == *difficulty
                    &&& gap > 60 && *difficulty > 1 ==> *final(difficulty) == *difficulty - 1
                    &&& gap > 60 && *difficulty <= 1 ==> *final(difficulty) == *difficulty
                }
            },
{
}

/// The bonus is two where the request named a task and a row of it was changed, and zero
/// otherwise; a share above one lowers the reward, and no other does.
pub proof fn law_terms_of_a_reward(
    ticket: &MineTicket,
    slot: &BlockSlot,
    task_rows: usize,
    terms: RewardTerms,
)
    requires
        call_ensures(reward_terms, (ticket, slot, task_rows), terms),
    ensures
        terms.index == slot.index,
        ticket.ai_task_id is Some && task_rows > 0 ==> terms.bonus.is_whole(2) && terms.bonus.bits
            == 0x4000_0000_0000_0000,
        ticket.ai_task_id is None || task_rows == 0 ==> terms.bonus.is_whole(0) && terms.bonus.bits
            == 0,
        terms.damped <==> 0x3ff0_0000_0000_0000 < ticket.device_power_share.bits
            <= 0x7ff0_0000_0000_0000,
{
    law_bounds_by_pattern(ticket.device_power_share);
    law_whole_patterns();
}

/// A block is made unless the supply would pass nineteen million. It carries the place, the
/// miner, the worker, the steps and the reward as they were handed in, and the hash of them,
/// and pays what it was to pay.
pub proof fn law_block_that_is_made(
    ticket: MineTicket,
    slot: BlockSlot,
    paid: Paid,
    reward: String,
    total: Amount,
    r: Result<Settled, Status>,
    block: &Block,
    coins: Amount,
)
    requires
        call_ensures(settle, (ticket, slot, paid, reward, total), r),
        r matches Ok(settled) ==> call_ensures(Settled::block, (&settled,), block)
            && call_ensures(Settled::reward, (&settled,), coins),
    ensures
        r is Ok <==> !(0x4172_1eac_0000_0000 < total.bits <= 0x7ff0_0000_0000_0000),
        r is Err ==> r->Err_0 == Status::Forbidden,
        r matches Ok(settled) ==> {
            &&& block.index == slot.index
            &&& block.timestamp == slot.timestamp
            &&& block.prev_hash@ == slot.prev_hash@
            &&& block.difficulty == slot.difficulty
            &&& block.miner@ == ticket.miner@
            &&& block.worker_name@ == ticket.worker_name@
            &&& block.solution_steps@ == ticket.solution_steps@
            &&& block.reward@ == reward@
            &&& block.hash@ == md5_hex_of(block@.preimage())
            &&& coins == paid.amount()
            &&& settled.total() == total
        },
{
    law_bounds_by_pattern(total);
    if let Ok(settled) = r {
        let view = mined_block(ticket, slot, reward@);
        assert(block@ == view);
        assert(block@.index == block.index && block@.timestamp == block.timestamp
            && block@.difficulty == block.difficulty);
        assert(view.preimage() == (BlockView { hash: Seq::empty(), ..view }).preimage());
    }
}

/// A stored block brings the supply to the total that it was made for and is answered with
/// `Created`; one that could not be stored leaves the supply and is answered with
/// `InternalServerError`.
pub proof fn law_end_of_a_request(
    ticket: MineTicket,
    slot: BlockSlot,
    paid: Paid,
    reward: String,
    total: Amount,
    settled: Settled,
)
    requires
        call_ensures(
            settle,
            (ticket, slot, paid, reward, total),
            Ok::<Settled, Status>(settled),
        ),
    ensures
        forall|supply: &mut Amount, s: Status| #[trigger]
            call_ensures(finish_mining, (supply, &settled, true), s) ==> s == Status::Created
                && *final(supply) == total,
        forall|supply: &mut Amount, s: Status| #[trigger]
            call_ensures(finish_mining, (supply, &settled, false), s) ==> s
                == Status::InternalServerError && *final(supply) == *supply,
{
}

} // verus!
