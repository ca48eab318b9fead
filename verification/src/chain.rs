//! Blocks and the chain that their hashes make.
use crate::clock::utc_seconds;
use crate::digest::{md5_digest, md5_hex, md5_hex_of};
use crate::text::{
    decimal, decimal_text, law_decimal_tells_apart, lower_hex, signed_decimal, signed_decimal_text,
};
use vstd::prelude::*;

verus! {

/// A block. The reward is held as the decimal text that enters the block's hash.
#[derive(Debug)]
pub struct Block {
    pub index: u64,
    pub timestamp: i64,
    pub miner: String,
    pub worker_name: String,
    pub solution_steps: String,
    pub prev_hash: String,
    pub hash: String,
    pub reward: String,
    pub difficulty: u32,
}

/// What a block holds.
pub struct BlockView {
    pub index: u64,
    pub timestamp: i64,
    pub miner: Seq<char>,
    pub worker_name: Seq<char>,
    pub solution_steps: Seq<char>,
    pub prev_hash: Seq<char>,
    pub hash: Seq<char>,
    pub reward: Seq<char>,
    pub difficulty: u32,
}

impl View for Block {
    type V = BlockView;

    open spec fn view(&self) -> BlockView {
        BlockView {
            index: self.index,
            timestamp: self.timestamp,
            miner: self.miner@,
            worker_name: self.worker_name@,
            solution_steps: self.solution_steps@,
            prev_hash: self.prev_hash@,
            hash: self.hash@,
            reward: self.reward@,
            difficulty: self.difficulty,
        }
    }
}

impl BlockView {
    /// The text that a block's hash is taken of: every other field, in a fixed order, with
    /// nothing between.
    pub open spec fn preimage(self) -> Seq<char> {
        decimal(self.index as nat) + self.prev_hash + self.miner + self.worker_name
            + self.solution_steps + self.reward + signed_decimal(self.timestamp as int) + decimal(
            self.difficulty as nat,
        )
    }

    /// Whether the hash is that of the other fields.
    pub open spec fn sealed(self) -> bool {
        self.hash == md5_hex_of(self.preimage())
    }

    /// Whether the block stands right behind `previous`.
    pub open spec fn follows(self, previous: BlockView) -> bool {
        self.index == previous.index + 1 && self.prev_hash == previous.hash
    }
}

/// The blocks of a list.
pub open spec fn block_views(blocks: Seq<Block>) -> Seq<BlockView> {
    blocks.map_values(|b: Block| b@)
}

/// Whether the first `n` blocks, but for the very first, follow the block before them and
/// are sealed.
pub open spec fn sound_prefix(blocks: Seq<BlockView>, n: int) -> bool {
    forall|i: int|
        1 <= i < n ==> (#[trigger] blocks[i]).follows(blocks[i - 1]) && blocks[i].sealed()
}

/// Whether block `i` is the first that does not follow the block before it or is not
/// sealed.
pub open spec fn first_fault(blocks: Seq<BlockView>, i: int) -> bool {
    &&& 1 <= i < blocks.len()
    &&& sound_prefix(blocks, i)
    &&& !(blocks[i].follows(blocks[i - 1]) && blocks[i].sealed())
}

/// Whether the whole chain is in order.
pub open spec fn sound_chain(blocks: Seq<BlockView>) -> bool {
    sound_prefix(blocks, blocks.len() as int)
}

/// Whether no index that the check of a chain adds one to is the greatest.
pub open spec fn indices_fit(blocks: Seq<BlockView>) -> bool {
    forall|i: int|
        1 <= i < blocks.len() && sound_prefix(blocks, i) ==> (#[trigger] blocks[i - 1]).index
            < u64::MAX
}

/// What the check of a chain finds.
#[derive(Clone, Copy, Debug, PartialEq, Eq, Structural)]
pub enum ChainVerdict {
    /// Every block follows the one before it and is sealed.
    Valid,
    /// The first fault is a block that does not follow the one before it.
    Broken,
    /// The first fault is a block that follows the one before it but is not sealed.
    Tampered,
}

/// What the check finds of `blocks`.
pub open spec fn verdict_of(blocks: Seq<BlockView>) -> ChainVerdict {
    if sound_chain(blocks) {
        ChainVerdict::Valid
    } else if exists|i: int| #[trigger]
        first_fault(blocks, i) && blocks[i].follows(blocks[i - 1]) {
        ChainVerdict::Tampered
    } else {
        ChainVerdict::Broken
    }
}

impl Block {
    /// The hash that the other fields call for.
    pub fn compute_hash(&self) -> (h: String)
        ensures
            h@ == md5_hex_of(self@.preimage()),
    {
        let mut raw = decimal_text(self.index);
        raw.append(self.prev_hash.as_str());
        raw.append(self.miner.as_str());
        raw.append(self.worker_name.as_str());
        raw.append(self.solution_steps.as_str());
        raw.append(self.reward.as_str());
        raw.append(signed_decimal_text(self.timestamp).as_str());
        raw.append(decimal_text(self.difficulty as u64).as_str());
        md5_hex(raw.as_str())
    }
}

/// What the first block holds, as stored at `timestamp`.
pub open spec fn genesis_view(timestamp: i64) -> BlockView {
    BlockView {
        index: 0,
        timestamp,
        miner: "NovaMind-Genesis"@,
        worker_name: "Master-Node"@,
        solution_steps: "Eco-Computation Immutable Genesis"@,
        prev_hash: "00000000000000000000000000000000"@,
        hash: md5_hex_of("0000NovaMindGenesis999Immutable"@),
        reward: "10"@,
        difficulty: 1,
    }
}

/// The first block, as stored at `timestamp`.
pub fn genesis_block_at(timestamp: i64) -> (b: Block)
    ensures
        b@ == genesis_view(timestamp),
{
    Block {
        index: 0,
        timestamp,
        miner: "NovaMind-Genesis".to_owned(),
        worker_name: "Master-Node".to_owned(),
        solution_steps: "Eco-Computation Immutable Genesis".to_owned(),
        prev_hash: "00000000000000000000000000000000".to_owned(),
        hash: md5_hex("0000NovaMindGenesis999Immutable"),
        reward: "10".to_owned(),
        difficulty: 1,
    }
}

/// The first block, to be stored now where the store holds `count` blocks: none where it
/// holds any.
pub fn genesis_block(count: i64) -> (b: Option<Block>)
    ensures
        b is Some <==> count == 0,
        b matches Some(block) ==> exists|timestamp: i64|
            timestamp >= 0 && block@ == #[trigger] genesis_view(timestamp),
{
    if count == 0 {
        Some(genesis_block_at(utc_seconds()))
    } else {
        None
    }
}

/// Checks that every block but the first follows the one before it and is sealed. None
/// where the check comes to a block whose index has no successor.
pub fn try_verify_blockchain(blocks: &Vec<Block>) -> (r: Option<ChainVerdict>)
    ensures
        r == if indices_fit(block_views(blocks@)) {
            Some(verdict_of(block_views(blocks@)))
        } else {
            None
        },
{
    let ghost views = block_views(blocks@);
    assert(forall|j: int| 0 <= j < blocks.len() ==> #[trigger] views[j] == blocks@[j]@);
    let mut i: usize = 1;
    while i < blocks.len()
        invariant
            1 <= i,
            blocks.len() > 0 ==> i <= blocks.len(),
            views == block_views(blocks@),
            sound_prefix(views, i as int),
            forall|j: int| 1 <= j < i ==> (#[trigger] views[j - 1]).index < u64::MAX,
        decreases blocks.len() - i,
    {
        let current = &blocks[i];
        let previous = &blocks[i - 1];
        assert(views[i as int] == current@ && views[i - 1] == previous@);
        if previous.index == u64::MAX {
            assert(!indices_fit(views));
            return None;
        }
        if current.index != previous.index + 1 || current.prev_hash != previous.hash {
            proof {
                lemma_fault_decides(views, i as int);
            }
            return Some(ChainVerdict::Broken);
        }
        if current.compute_hash() != current.hash {
            proof {
                lemma_fault_decides(views, i as int);
            }
            return Some(ChainVerdict::Tampered);
        }
        i = i + 1;
    }
    Some(ChainVerdict::Valid)
}

/// Checks that every block but the first follows the one before it and is sealed.
pub fn verify_blockchain(blocks: &Vec<Block>) -> (verdict: ChainVerdict)
    requires
        indices_fit(block_views(blocks@)),
    ensures
        verdict == verdict_of(block_views(blocks@)),
{
    try_verify_blockchain(blocks).unwrap()
}

/// A chain has at most one first fault, and one that has one is not in order.
proof fn lemma_fault_decides(blocks: Seq<BlockView>, i: int)
    requires
        first_fault(blocks, i),
    ensures
        !sound_chain(blocks),
        forall|j: int| first_fault(blocks, j) ==> j == i,
        verdict_of(blocks) == if blocks[i].follows(blocks[i - 1]) {
            ChainVerdict::Tampered
        } else {
            ChainVerdict::Broken
        },
        indices_fit(blocks) <==> forall|j: int|
            1 <= j <= i ==> (#[trigger] blocks[j - 1]).index < u64::MAX,
{
    if sound_chain(blocks) {
        assert(blocks[i].follows(blocks[i - 1]) && blocks[i].sealed());
    }
    assert forall|j: int| first_fault(blocks, j) implies j == i by {
        if j < i {
            assert(blocks[j].follows(blocks[j - 1]) && blocks[j].sealed());
        }
        if i < j {
            assert(blocks[i].follows(blocks[i - 1]) && blocks[i].sealed());
        }
    }
}

proof fn lemma_has_first_fault(blocks: Seq<BlockView>, n: int) -> (i: int)
    requires
        0 <= n <= blocks.len(),
        !sound_prefix(blocks, n),
    ensures
        first_fault(blocks, i),
        i < n,
    decreases n,
{
    if sound_prefix(blocks, n - 1) {
        n - 1
    } else {
        lemma_has_first_fault(blocks, n - 1)
    }
}

/// A chain is valid where every block follows the one before it and is sealed. Otherwise
/// there is exactly one first fault, and the verdict names its kind.
pub proof fn law_verdict(blocks: Seq<BlockView>)
    ensures
        verdict_of(blocks) == ChainVerdict::Valid <==> sound_chain(blocks),
        verdict_of(blocks) == ChainVerdict::Broken <==> exists|i: int| #[trigger]
            first_fault(blocks, i) && !blocks[i].follows(blocks[i - 1]),
        verdict_of(blocks) == ChainVerdict::Tampered <==> exists|i: int| #[trigger]
            first_fault(blocks, i) && blocks[i].follows(blocks[i - 1]),
        forall|i: int, j: int| first_fault(blocks, i) && first_fault(blocks, j) ==> i == j,
{
    assert forall|i: int, j: int| first_fault(blocks, i) && first_fault(blocks, j) implies i
        == j by {
        lemma_fault_decides(blocks, i);
    }
    if sound_chain(blocks) {
        assert forall|j: int| !first_fault(blocks, j) by {
            if first_fault(blocks, j) {
                lemma_fault_decides(blocks, j);
            }
        }
    } else {
        let i = lemma_has_first_fault(blocks, blocks.len() as int);
        lemma_fault_decides(blocks, i);
    }
}

/// The start of a valid chain is valid.
pub proof fn law_prefix_of_valid(blocks: Seq<BlockView>, n: int)
    requires
        verdict_of(blocks) == ChainVerdict::Valid,
        0 <= n <= blocks.len(),
    ensures
        verdict_of(blocks.take(n)) == ChainVerdict::Valid,
{
    let t = blocks.take(n);
    assert forall|i: int| 1 <= i < n implies (#[trigger] t[i]).follows(t[i - 1]) && t[i].sealed() by {
        assert(t[i] == blocks[i] && t[i - 1] == blocks[i - 1]);
    }
}

/// Two texts are the same where they are with the same text put before them or behind them.
proof fn lemma_same_rest(a: Seq<char>, b: Seq<char>, rest: Seq<char>)
    ensures
        a + rest == b + rest ==> a == b,
        rest + a == rest + b ==> a == b,
{
    if a + rest == b + rest {
        assert((a + rest).len() == (b + rest).len());
        assert((a + rest).take(a.len() as int) =~= a);
        assert((b + rest).take(b.len() as int) =~= b);
    }
    if rest + a == rest + b {
        assert((rest + a).skip(rest.len() as int) =~= a);
        assert((rest + b).skip(rest.len() as int) =~= b);
    }
}

/// Each of the eight fields is hashed, whatever the others hold: with one of them exchanged,
/// the hashed text is the same only where that field is. The hash itself is not hashed.
pub proof fn law_each_field_is_hashed(block: BlockView, other: BlockView)
    ensures
        block.preimage() == (BlockView { index: other.index, ..block }).preimage() <==> block.index
            == other.index,
        block.preimage() == (BlockView { prev_hash: other.prev_hash, ..block }).preimage()
            <==> block.prev_hash == other.prev_hash,
        block.preimage() == (BlockView { miner: other.miner, ..block }).preimage() <==> block.miner
            == other.miner,
        block.preimage() == (BlockView { worker_name: other.worker_name, ..block }).preimage()
            <==> block.worker_name == other.worker_name,
        block.preimage() == (BlockView { solution_steps: other.solution_steps, ..block }).preimage()
            <==> block.solution_steps == other.solution_steps,
        block.preimage() == (BlockView { reward: other.reward, ..block }).preimage()
            <==> block.reward == other.reward,
        block.preimage() == (BlockView { timestamp: other.timestamp, ..block }).preimage()
            <==> block.timestamp == other.timestamp,
        block.preimage() == (BlockView { difficulty: other.difficulty, ..block }).preimage()
            <==> block.difficulty == other.difficulty,
        block.preimage() == (BlockView { hash: other.hash, ..block }).preimage(),
{
    let p1 = decimal(block.index as nat);
    let p2 = p1 + block.prev_hash;
    let p3 = p2 + block.miner;
    let p4 = p3 + block.worker_name;
    let p5 = p4 + block.solution_steps;
    let p6 = p5 + block.reward;
    let p7 = p6 + signed_decimal(block.timestamp as int);
    let p8 = p7 + decimal(block.difficulty as nat);
    assert(block.preimage() == p8);
    if block.index != other.index {
        let b = BlockView { index: other.index, ..block };
        let q1 = decimal(other.index as nat);
        let q2 = q1 + block.prev_hash;
        let q3 = q2 + block.miner;
        let q4 = q3 + block.worker_name;
        let q5 = q4 + block.solution_steps;
        let q6 = q5 + block.reward;
        let q7 = q6 + signed_decimal(block.timestamp as int);
        let q8 = q7 + decimal(block.difficulty as nat);
        assert(b.preimage() == q8);
        lemma_same_rest(p7, q7, decimal(block.difficulty as nat));
        lemma_same_rest(p6, q6, signed_decimal(block.timestamp as int));
        lemma_same_rest(p5, q5, block.reward);
        lemma_same_rest(p4, q4, block.solution_steps);
        lemma_same_rest(p3, q3, block.worker_name);
        lemma_same_rest(p2, q2, block.miner);
        lemma_same_rest(p1, q1, block.prev_hash);
        law_decimal_tells_apart(block.index as int, other.index as int);
    }
    if block.prev_hash != other.prev_hash {
        let b = BlockView { prev_hash: other.prev_hash, ..block };
        let q2 = p1 + other.prev_hash;
        let q3 = q2 + block.miner;
        let q4 = q3 + block.worker_name;
        let q5 = q4 + block.solution_steps;
        let q6 = q5 + block.reward;
        let q7 = q6 + signed_decimal(block.timestamp as int);
        let q8 = q7 + decimal(block.difficulty as nat);
        assert(b.preimage() == q8);
        lemma_same_rest(p7, q7, decimal(block.difficulty as nat));
        lemma_same_rest(p6, q6, signed_decimal(block.timestamp as int));
        lemma_same_rest(p5, q5, block.reward);
        lemma_same_rest(p4, q4, block.solution_steps);
        lemma_same_rest(p3, q3, block.worker_name);
        lemma_same_rest(p2, q2, block.miner);
        lemma_same_rest(block.prev_hash, other.prev_hash, p1);
    }
    if block.miner != other.miner {
        let b = BlockView { miner: other.miner, ..block };
        let q3 = p2 + other.miner;
        let q4 = q3 + block.worker_name;
        let q5 = q4 + block.solution_steps;
        let q6 = q5 + block.reward;
        let q7 = q6 + signed_decimal(block.timestamp as int);
        let q8 = q7 + decimal(block.difficulty as nat);
        assert(b.preimage() == q8);
        lemma_same_rest(p7, q7, decimal(block.difficulty as nat));
        lemma_same_rest(p6, q6, signed_decimal(block.timestamp as int));
        lemma_same_rest(p5, q5, block.reward);
        lemma_same_rest(p4, q4, block.solution_steps);
        lemma_same_rest(p3, q3, block.worker_name);
        lemma_same_rest(block.miner, other.miner, p2);
    }
    if block.worker_name != other.worker_name {
        let b = BlockView { worker_name: other.worker_name, ..block };
        let q4 = p3 + other.worker_name;
        let q5 = q4 + block.solution_steps;
        let q6 = q5 + block.reward;
        let q7 = q6 + signed_decimal(block.timestamp as int);
        let q8 = q7 + decimal(block.difficulty as nat);
        assert(b.preimage() == q8);
        lemma_same_rest(p7, q7, decimal(block.difficulty as nat));
        lemma_same_rest(p6, q6, signed_decimal(block.timestamp as int));
        lemma_same_rest(p5, q5, block.reward);
        lemma_same_rest(p4, q4, block.solution_steps);
        lemma_same_rest(block.worker_name, other.worker_name, p3);
    }
    if block.solution_steps != other.solution_steps {
        let b = BlockView { solution_steps: other.solution_steps, ..block };
        let q5 = p4 + other.solution_steps;
        let q6 = q5 + block.reward;
        let q7 = q6 + signed_decimal(block.timestamp as int);
        let q8 = q7 + decimal(block.difficulty as nat);
        assert(b.preimage() == q8);
        lemma_same_rest(p7, q7, decimal(block.difficulty as nat));
        lemma_same_rest(p6, q6, signed_decimal(block.timestamp as int));
        lemma_same_rest(p5, q5, block.reward);
        lemma_same_rest(block.solution_steps, other.solution_steps, p4);
    }
    if block.reward != other.reward {
        let b = BlockView { reward: other.reward, ..block };
        let q6 = p5 + other.reward;
        let q7 = q6 + signed_decimal(block.timestamp as int);
        let q8 = q7 + decimal(block.difficulty as nat);
        assert(b.preimage() == q8);
        lemma_same_rest(p7, q7, decimal(block.difficulty as nat));
        lemma_same_rest(p6, q6, signed_decimal(block.timestamp as int));
        lemma_same_rest(block.reward, other.reward, p5);
    }
    if block.timestamp != other.timestamp {
        let b = BlockView { timestamp: other.timestamp, ..block };
        let q7 = p6 + signed_decimal(other.timestamp as int);
        let q8 = q7 + decimal(block.difficulty as nat);
        assert(b.preimage() == q8);
        lemma_same_rest(p7, q7, decimal(block.difficulty as nat));
        lemma_same_rest(
            signed_decimal(block.timestamp as int),
            signed_decimal(other.timestamp as int),
            p6,
        );
        law_decimal_tells_apart(block.timestamp as int, other.timestamp as int);
    }
    if block.difficulty != other.difficulty {
        let b = BlockView { difficulty: other.difficulty, ..block };
        let q8 = p7 + decimal(other.difficulty as nat);
        assert(b.preimage() == q8);
        lemma_same_rest(decimal(block.difficulty as nat), decimal(other.difficulty as nat), p7);
        law_decimal_tells_apart(block.difficulty as int, other.difficulty as int);
    }
}

/// Two blocks in the same place whose miners differ, in texts of the same length, have
/// different hashed texts, whatever else they hold.
pub proof fn law_other_miner_is_hashed(a: BlockView, b: BlockView)
    requires
        a.index == b.index,
        a.prev_hash == b.prev_hash,
        a.miner.len() == b.miner.len(),
        a.miner != b.miner,
    ensures
        a.preimage() != b.preimage(),
{
    if a.preimage() == b.preimage() {
        let n = (decimal(a.index as nat) + a.prev_hash).len() as int;
        assert(a.preimage().subrange(n, n + a.miner.len()) =~= a.miner);
        assert(b.preimage().subrange(n, n + b.miner.len()) =~= b.miner);
    }
}

/// A hash is the MD5 digest of the eight other fields, one behind the other: the index, the
/// hash before, the miner, the worker, the steps, the reward, the time and the difficulty,
/// the numbers in decimal.
pub proof fn law_hashed_text(block: &Block, h: String)
    requires
        call_ensures(Block::compute_hash, (block,), h),
    ensures
        h@ == lower_hex(
            md5_digest(
                vstd::utf8::encode_utf8(
                    decimal(block.index as nat) + block.prev_hash@ + block.miner@
                        + block.worker_name@ + block.solution_steps@ + block.reward@
                        + signed_decimal(block.timestamp as int) + decimal(
                        block.difficulty as nat,
                    ),
                ),
            ),
        ),
{
}

/// Whoever changes one field of one block of a valid chain, but for the very first, and
/// leaves the hash and the place in the chain as they are, is found out, wherever the digest
/// tells the two hashed texts apart if they differ.
pub proof fn law_tampering_is_found(blocks: Seq<BlockView>, i: int, forged: BlockView)
    requires
        verdict_of(blocks) == ChainVerdict::Valid,
        1 <= i < blocks.len(),
        forged != blocks[i],
        ({
            ||| forged == BlockView { miner: forged.miner, ..blocks[i] }
            ||| forged == BlockView { worker_name: forged.worker_name, ..blocks[i] }
            ||| forged == BlockView { solution_steps: forged.solution_steps, ..blocks[i] }
            ||| forged == BlockView { reward: forged.reward, ..blocks[i] }
            ||| forged == BlockView { timestamp: forged.timestamp, ..blocks[i] }
            ||| forged == BlockView { difficulty: forged.difficulty, ..blocks[i] }
        }),
        forged.preimage() != blocks[i].preimage() ==> md5_hex_of(forged.preimage()) != md5_hex_of(
            blocks[i].preimage(),
        ),
    ensures
        verdict_of(blocks.update(i, forged)) == ChainVerdict::Tampered,
{
    law_each_field_is_hashed(blocks[i], forged);
    let f = blocks.update(i, forged);
    assert(blocks[i].follows(blocks[i - 1]) && blocks[i].sealed());
    assert(f[i] == forged && !forged.sealed());
    lemma_fault_at(blocks, i, forged);
    lemma_fault_decides(f, i);
}

/// The blocks before an exchanged one are as they were.
proof fn lemma_fault_at(blocks: Seq<BlockView>, i: int, forged: BlockView)
    requires
        verdict_of(blocks) == ChainVerdict::Valid,
        1 <= i < blocks.len(),
        !(forged.follows(blocks[i - 1]) && forged.sealed()),
    ensures
        first_fault(blocks.update(i, forged), i),
{
    let f = blocks.update(i, forged);
    assert forall|j: int| 1 <= j < i implies (#[trigger] f[j]).follows(f[j - 1]) && f[j].sealed() by {
        assert(f[j] == blocks[j] && f[j - 1] == blocks[j - 1]);
    }
}

/// Whoever gives one block of a valid chain, but for the very first, another index or another
/// hash before it is found out, whatever else they change.
pub proof fn law_broken_link_is_found(blocks: Seq<BlockView>, i: int, forged: BlockView)
    requires
        verdict_of(blocks) == ChainVerdict::Valid,
        1 <= i < blocks.len(),
        forged.index != blocks[i].index || forged.prev_hash != blocks[i].prev_hash,
    ensures
        verdict_of(blocks.update(i, forged)) == ChainVerdict::Broken,
{
    let f = blocks.update(i, forged);
    assert(blocks[i].follows(blocks[i - 1]));
    assert(f[i] == forged && f[i - 1] == blocks[i - 1]);
    lemma_fault_at(blocks, i, forged);
    lemma_fault_decides(f, i);
}

/// Whoever replaces one block of a valid chain, but for the very first, by one whose
/// fields other than the hash have another digest and whose hash is the same, is found
/// out.
pub proof fn law_other_digest_is_found(blocks: Seq<BlockView>, i: int, forged: BlockView)
    requires
        verdict_of(blocks) == ChainVerdict::Valid,
        1 <= i < blocks.len(),
        forged.hash == blocks[i].hash,
        md5_hex_of(forged.preimage()) != md5_hex_of(blocks[i].preimage()),
    ensures
        verdict_of(blocks.update(i, forged)) != ChainVerdict::Valid,
{
    let f = blocks.update(i, forged);
    assert(blocks[i].sealed());
    assert(f[i] == forged && !forged.sealed());
    if sound_chain(f) {
        assert(f[i].sealed());
    }
}

/// Whoever replaces one block of a valid chain, but for the last, by one with another hash
/// is found out.
pub proof fn law_rehashing_is_found(blocks: Seq<BlockView>, i: int, forged: BlockView)
    requires
        verdict_of(blocks) == ChainVerdict::Valid,
        0 <= i < blocks.len() - 1,
        forged.hash != blocks[i].hash,
    ensures
        verdict_of(blocks.update(i, forged)) != ChainVerdict::Valid,
{
    let f = blocks.update(i, forged);
    assert(blocks[i + 1].follows(blocks[i]));
    assert(f[i + 1] == blocks[i + 1] && f[i] == forged);
    if sound_chain(f) {
        assert(f[i + 1].follows(f[i + 1 - 1]));
    }
}

/// A chain of one block is valid, whatever the block holds.
pub proof fn law_single_block_is_valid(block: BlockView)
    ensures
        verdict_of(seq![block]) == ChainVerdict::Valid,
{
}

/// Putting a sealed block behind the last one keeps a valid chain valid.
pub proof fn law_extending_keeps_valid(blocks: Seq<BlockView>, next: BlockView)
    requires
        verdict_of(blocks) == ChainVerdict::Valid,
        blocks.len() > 0,
        next.follows(blocks.last()),
        next.sealed(),
    ensures
        verdict_of(blocks.push(next)) == ChainVerdict::Valid,
{
    let longer = blocks.push(next);
    assert forall|i: int| 1 <= i < longer.len() implies (#[trigger] longer[i]).follows(
        longer[i - 1],
    ) && longer[i].sealed() by {
        if i < blocks.len() {
            assert(longer[i] == blocks[i] && longer[i - 1] == blocks[i - 1]);
        }
    }
}

/// Whether block `i` carries the index behind that of the block before it, and its hash.
pub open spec fn links(blocks: Seq<Block>, i: int) -> bool {
    blocks[i].index - blocks[i - 1].index == 1 && blocks[i].prev_hash@ == blocks[i - 1].hash@
}

/// Whether the hash of `block` is one that `compute_hash` can return.
pub open spec fn honest(block: Block) -> bool {
    block.hash@ == lower_hex(
        md5_digest(
            vstd::utf8::encode_utf8(
                decimal(block.index as nat) + block.prev_hash@ + block.miner@ + block.worker_name@
                    + block.solution_steps@ + block.reward@ + signed_decimal(
                    block.timestamp as int,
                ) + decimal(block.difficulty as nat),
            ),
        ),
    )
}

/// Whether the first `n` blocks, but for the very first, link to the one before them and are
/// honest.
pub open spec fn clean(blocks: Seq<Block>, n: int) -> bool {
    forall|j: int| 1 <= j < n ==> #[trigger] links(blocks, j) && honest(blocks[j])
}

/// What the check of a chain finds, block by block. It comes to the first block that does
/// not carry the index behind the one before it and the hash of that one, or whose hash is
/// not that of its other fields; there is none only where the chain is valid. The check has
/// no answer where the index behind does not exist.
pub proof fn law_check_of_chain(blocks: &Vec<Block>, r: Option<ChainVerdict>)
    requires
        call_ensures(try_verify_blockchain, (blocks,), r),
    ensures
        r == Some(ChainVerdict::Valid) <==> clean(blocks@, blocks@.len() as int),
        r == Some(ChainVerdict::Broken) <==> exists|i: int|
            {
                &&& 1 <= i < blocks@.len()
                &&& #[trigger] clean(blocks@, i)
                &&& blocks@[i - 1].index < u64::MAX
                &&& !links(blocks@, i)
            },
        r == Some(ChainVerdict::Tampered) <==> exists|i: int|
            {
                &&& 1 <= i < blocks@.len()
                &&& #[trigger] clean(blocks@, i)
                &&& links(blocks@, i)
                &&& !honest(blocks@[i])
            },
        r is None <==> exists|i: int|
            {
                &&& 1 <= i < blocks@.len()
                &&& #[trigger] clean(blocks@, i)
                &&& blocks@[i - 1].index == u64::MAX
            },
{
    if clean(blocks@, blocks@.len() as int) {
        lemma_clean_is_valid(blocks, r);
    } else {
        let i = lemma_fault_is_named(blocks, r);
        assert forall|j: int|
            1 <= j < blocks@.len() && #[trigger] clean(blocks@, j) && !(links(blocks@, j) && honest(
                blocks@[j],
            )) implies j == i by {
            if j > i {
                assert(links(blocks@, i) && honest(blocks@[i]));
            }
            if j < i {
                assert(links(blocks@, j) && honest(blocks@[j]));
            }
        }
    }
}

/// A block links and is honest where its view follows and is sealed.
proof fn lemma_block_reads(blocks: Seq<Block>, i: int)
    requires
        1 <= i < blocks.len(),
    ensures
        block_views(blocks)[i] == blocks[i]@,
        block_views(blocks)[i - 1] == blocks[i - 1]@,
        links(blocks, i) <==> block_views(blocks)[i].follows(block_views(blocks)[i - 1]),
        honest(blocks[i]) <==> block_views(blocks)[i].sealed(),
{
}

proof fn lemma_clean_is_sound(blocks: Seq<Block>, n: int)
    requires
        n <= blocks.len(),
        clean(blocks, n),
    ensures
        sound_prefix(block_views(blocks), n),
{
    let views = block_views(blocks);
    assert forall|j: int| 1 <= j < n implies (#[trigger] views[j]).follows(views[j - 1])
        && views[j].sealed() by {
        assert(links(blocks, j));
        lemma_block_reads(blocks, j);
    }
}

proof fn lemma_sound_is_clean(blocks: Seq<Block>, n: int)
    requires
        n <= blocks.len(),
        sound_prefix(block_views(blocks), n),
    ensures
        clean(blocks, n),
{
    let views = block_views(blocks);
    assert forall|j: int| 1 <= j < n implies #[trigger] links(blocks, j) && honest(blocks[j]) by {
        assert(views[j].follows(views[j - 1]) && views[j].sealed());
        lemma_block_reads(blocks, j);
    }
}

proof fn lemma_clean_is_valid(blocks: &Vec<Block>, r: Option<ChainVerdict>)
    requires
        call_ensures(try_verify_blockchain, (blocks,), r),
        clean(blocks@, blocks@.len() as int),
    ensures
        r == Some(ChainVerdict::Valid),
        forall|i: int|
            1 <= i < blocks@.len() && #[trigger] clean(blocks@, i) ==> {
                &&& links(blocks@, i)
                &&& honest(blocks@[i])
                &&& blocks@[i - 1].index < u64::MAX
            },
{
    let views = block_views(blocks@);
    lemma_clean_is_sound(blocks@, blocks@.len() as int);
    assert forall|i: int| 1 <= i < views.len() implies (#[trigger] views[i - 1]).index
        < u64::MAX by {
        assert(views[i].follows(views[i - 1]));
    }
    assert forall|i: int| 1 <= i < blocks@.len() && #[trigger] clean(blocks@, i) implies {
        &&& links(blocks@, i)
        &&& honest(blocks@[i])
        &&& blocks@[i - 1].index < u64::MAX
    } by {
        assert(links(blocks@, i));
    }
}

proof fn lemma_fault_is_named(blocks: &Vec<Block>, r: Option<ChainVerdict>) -> (i: int)
    requires
        call_ensures(try_verify_blockchain, (blocks,), r),
        !clean(blocks@, blocks@.len() as int),
    ensures
        1 <= i < blocks@.len(),
        clean(blocks@, i),
        !(links(blocks@, i) && honest(blocks@[i])),
        r == if blocks@[i - 1].index == u64::MAX {
            None
        } else if links(blocks@, i) {
            Some(ChainVerdict::Tampered)
        } else {
            Some(ChainVerdict::Broken)
        },
{
    let views = block_views(blocks@);
    if sound_chain(views) {
        lemma_sound_is_clean(blocks@, blocks@.len() as int);
    }
    let i = lemma_has_first_fault(views, views.len() as int);
    lemma_sound_is_clean(blocks@, i);
    lemma_block_reads(blocks@, i);
    lemma_fault_decides(views, i);
    assert forall|j: int| 1 <= j < i implies (#[trigger] views[j - 1]).index < u64::MAX by {
        assert(views[j].follows(views[j - 1]));
    }
    i
}

/// Wherever the check of a chain has an answer, both forms of it give the same.
pub proof fn law_checks_agree(blocks: &Vec<Block>, r: Option<ChainVerdict>, verdict: ChainVerdict)
    requires
        call_ensures(try_verify_blockchain, (blocks,), r),
        call_ensures(verify_blockchain, (blocks,), verdict),
        r is Some,
    ensures
        r == Some(verdict),
{
}

/// The first block is the same whenever it is stored, but for its time, and its hash is a
/// fixed digest, not that of its fields.
pub proof fn law_genesis(timestamp: i64, b: Block)
    requires
        call_ensures(genesis_block_at, (timestamp,), b),
    ensures
        b.timestamp == timestamp,
        b.index == 0,
        b.miner@ == "NovaMind-Genesis"@,
        b.worker_name@ == "Master-Node"@,
        b.solution_steps@ == "Eco-Computation Immutable Genesis"@,
        b.prev_hash@ == Seq::new(32, |i: int| '0'),
        b.hash@ == lower_hex(
            md5_digest(vstd::utf8::encode_utf8("0000NovaMindGenesis999Immutable"@)),
        ),
        b.reward@ == "10"@,
        b.difficulty == 1,
{
    assert(b@ == genesis_view(timestamp));
    assert(b@.timestamp == b.timestamp);
    reveal_strlit("00000000000000000000000000000000");
    assert(b.prev_hash@ =~= Seq::new(32, |i: int| '0'));
}

/// The first block is made where the store holds none, and nowhere else, and is that of a
/// time not before 1970.
pub proof fn law_genesis_is_made_once(count: i64, r: Option<Block>)
    requires
        call_ensures(genesis_block, (count,), r),
    ensures
        r is Some <==> count == 0,
        r matches Some(b) ==> {
            &&& b.timestamp >= 0
            &&& b.index == 0
            &&& b.miner@ == "NovaMind-Genesis"@
            &&& b.worker_name@ == "Master-Node"@
            &&& b.solution_steps@ == "Eco-Computation Immutable Genesis"@
            &&& b.prev_hash@ == "00000000000000000000000000000000"@
            &&& b.hash@ == lower_hex(
                md5_digest(vstd::utf8::encode_utf8("0000NovaMindGenesis999Immutable"@)),
            )
            &&& b.reward@ == "10"@
            &&& b.difficulty == 1
        },
{
    if let Some(b) = r {
        let timestamp = choose|timestamp: i64|
            timestamp >= 0 && b@ == #[trigger] genesis_view(timestamp);
        assert(b@.timestamp == b.timestamp);
    }
}

} // verus!
