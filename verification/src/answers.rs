//! What the node answers to each question.
use crate::amount::{law_key_order, Amount, HUNDREDTH, NINETEEN_MILLION, TWENTIETH};
use crate::chain::ChainVerdict;
use crate::clock::utc_seconds;
use crate::reply::{records, ItemView, Record, RecordView, Reply, ReplyView, Scalar, ScalarView};
use crate::status::Status;
use crate::wallet::Wallet;
use vstd::prelude::*;

verus! {

/// A text in a reply.
pub open spec fn text_item(t: Seq<char>) -> ItemView {
    ItemView::One(ScalarView::Text(t))
}

/// A flag in a reply.
pub open spec fn flag_item(b: bool) -> ItemView {
    ItemView::One(ScalarView::Flag(b))
}

/// A number that is not negative, in a reply.
pub open spec fn unsigned_item(n: u64) -> ItemView {
    ItemView::One(ScalarView::Unsigned(n))
}

/// A number in a reply.
pub open spec fn signed_item(i: i64) -> ItemView {
    ItemView::One(ScalarView::Signed(i))
}

/// An amount in a reply.
pub open spec fn coins_item(a: Amount) -> ItemView {
    ItemView::One(ScalarView::Coins(a))
}

/// The figures of the network.
pub fn network_stats(
    supply: Amount,
    block_count: i64,
    pending_tasks: i64,
    total_staked: Amount,
    difficulty: u32,
    peers: usize,
) -> (r: Reply)
    ensures
        r@ == seq![
            ("coin_name"@, text_item("NovaMind (NVD)"@)),
            ("circulating_supply"@, coins_item(supply)),
            ("max_supply"@, coins_item(Amount { bits: NINETEEN_MILLION })),
            ("total_blocks"@, signed_item(block_count)),
            ("pending_ai_verification_tasks"@, signed_item(pending_tasks)),
            ("total_staked"@, coins_item(total_staked)),
            ("dynamic_difficulty"@, unsigned_item(difficulty as u64)),
            ("connected_p2p_peers"@, unsigned_item(peers as u64)),
            ("security_status"@, text_item("Hybrid PoW & AI Trust Active"@)),
            ("status"@, text_item("Operational"@)),
        ],
{
    Reply::new().with_text("coin_name", "NovaMind (NVD)").with_coins(
        "circulating_supply",
        supply,
    ).with_coins("max_supply", Amount { bits: NINETEEN_MILLION }).with_signed(
        "total_blocks",
        block_count,
    ).with_signed("pending_ai_verification_tasks", pending_tasks).with_coins(
        "total_staked",
        total_staked,
    ).with_unsigned("dynamic_difficulty", difficulty as u64).with_unsigned(
        "connected_p2p_peers",
        peers as u64,
    ).with_text("security_status", "Hybrid PoW & AI Trust Active").with_text(
        "status",
        "Operational",
    )
}

/// How the node is.
pub fn node_health(database_healthy: bool, uptime_seconds: u64) -> (r: Reply)
    ensures
        r@ == seq![
            ("node"@, text_item("NovaMind Validator"@)),
            ("database_healthy"@, flag_item(database_healthy)),
            ("uptime_seconds"@, unsigned_item(uptime_seconds)),
            ("status"@, text_item("Healthy"@)),
        ],
{
    Reply::new().with_text("node", "NovaMind Validator").with_flag(
        "database_healthy",
        database_healthy,
    ).with_unsigned("uptime_seconds", uptime_seconds).with_text("status", "Healthy")
}

/// The figures of the node.
pub fn node_metrics(uptime_seconds: u64, limited_ips: usize, banned_ips: usize) -> (r: Reply)
    ensures
        r@ == seq![
            ("node_uptime_seconds"@, unsigned_item(uptime_seconds)),
            ("active_rate_limited_ips"@, unsigned_item(limited_ips as u64)),
            ("blacklisted_ips_count"@, unsigned_item(banned_ips as u64)),
            ("compression_layer"@, text_item("Active (gzip/brotli)"@)),
            ("status"@, text_item("Optimal"@)),
        ],
{
    Reply::new().with_unsigned("node_uptime_seconds", uptime_seconds).with_unsigned(
        "active_rate_limited_ips",
        limited_ips as u64,
    ).with_unsigned("blacklisted_ips_count", banned_ips as u64).with_text(
        "compression_layer",
        "Active (gzip/brotli)",
    ).with_text("status", "Optimal")
}

/// What is said of a verdict on the chain; without one the store could not be read.
pub open spec fn verdict_message(verdict: Option<ChainVerdict>) -> Seq<char> {
    match verdict {
        Some(ChainVerdict::Valid) => "NovaMind Blockchain fully verified."@,
        Some(ChainVerdict::Broken) => "Chain integrity broken"@,
        Some(ChainVerdict::Tampered) => "Cryptographic tampering detected"@,
        None => "Database error"@,
    }
}

/// The verdict on the chain, as a reply.
pub fn chain_report(verdict: Option<ChainVerdict>) -> (r: Reply)
    ensures
        r@ == seq![
            ("valid"@, flag_item(verdict == Some(ChainVerdict::Valid))),
            ("message"@, text_item(verdict_message(verdict))),
        ],
{
    let (valid, message) = match verdict {
        Some(ChainVerdict::Valid) => (true, "NovaMind Blockchain fully verified."),
        Some(ChainVerdict::Broken) => (false, "Chain integrity broken"),
        Some(ChainVerdict::Tampered) => (false, "Cryptographic tampering detected"),
        None => (false, "Database error"),
    };
    Reply::new().with_flag("valid", valid).with_text("message", message)
}

/// The wallet that was made, or that none could be.
pub fn wallet_report(wallet: Option<Wallet>) -> (r: Reply)
    ensures
        r@ == match wallet {
            Some(w) => seq![
                ("status"@, text_item("success"@)),
                ("address"@, text_item(w.address@)),
                ("public_key"@, text_item(w.public_key@)),
                ("message"@, text_item("NovaMind secure wallet generated."@)),
            ],
            None => seq![
                ("status"@, text_item("error"@)),
                ("message"@, text_item("Key generation failed"@)),
            ],
        },
{
    match wallet {
        Some(w) => Reply::new().with_text("status", "success").with_text(
            "address",
            w.address.as_str(),
        ).with_text("public_key", w.public_key.as_str()).with_text(
            "message",
            "NovaMind secure wallet generated.",
        ),
        None => Reply::new().with_text("status", "error").with_text(
            "message",
            "Key generation failed",
        ),
    }
}

/// The vault that was made, or that the password is too short.
pub fn vault_report(vault: Option<String>) -> (r: Reply)
    ensures
        r@ == match vault {
            Some(v) => seq![
                ("status"@, text_item("success"@)),
                ("encrypted_vault"@, text_item(v@)),
            ],
            None => seq![
                ("status"@, text_item("error"@)),
                ("message"@, text_item("Password too short"@)),
            ],
        },
{
    match vault {
        Some(v) => Reply::new().with_text("status", "success").with_text(
            "encrypted_vault",
            v.as_str(),
        ),
        None => Reply::new().with_text("status", "error").with_text(
            "message",
            "Password too short",
        ),
    }
}

/// The figures that a front end opens with.
pub fn ui_overview(supply: Amount, block_count: i64, difficulty: u32) -> (r: Reply)
    ensures
        r@ == seq![
            ("network"@, text_item("NovaMind Mainnet"@)),
            ("circulating_supply"@, coins_item(supply)),
            ("total_blocks"@, signed_item(block_count)),
            ("current_difficulty"@, unsigned_item(difficulty as u64)),
            ("ui_ready"@, flag_item(true)),
            ("status"@, text_item("Online"@)),
        ],
{
    Reply::new().with_text("network", "NovaMind Mainnet").with_coins(
        "circulating_supply",
        supply,
    ).with_signed("total_blocks", block_count).with_unsigned(
        "current_difficulty",
        difficulty as u64,
    ).with_flag("ui_ready", true).with_text("status", "Online")
}

/// What one worker of a miner has brought in.
pub fn worker_record(worker_name: String, blocks_mined: i64, rewards_earned: Amount) -> (r: Record)
    ensures
        r@ == seq![
            ("worker_name"@, ScalarView::Text(worker_name@)),
            ("blocks_mined"@, ScalarView::Signed(blocks_mined)),
            ("rewards_earned"@, ScalarView::Coins(rewards_earned)),
        ],
{
    Record::new().with("worker_name", Scalar::Text(worker_name)).with(
        "blocks_mined",
        Scalar::Signed(blocks_mined),
    ).with("rewards_earned", Scalar::Coins(rewards_earned))
}

/// What a miner has brought in, worker by worker.
pub fn miner_dashboard(
    address: &str,
    blocks_mined: i64,
    total_rewards: Amount,
    workers: Vec<Record>,
) -> (r: Reply)
    ensures
        r@ == seq![
            ("miner_address"@, text_item(address@)),
            ("blocks_mined"@, signed_item(blocks_mined)),
            ("total_rewards_earned"@, coins_item(total_rewards)),
            ("active_workers"@, ItemView::Many(records(workers@))),
            ("connection_status"@, text_item("Hybrid AI-Verified Mining Active"@)),
        ],
{
    Reply::new().with_text("miner_address", address).with_signed(
        "blocks_mined",
        blocks_mined,
    ).with_coins("total_rewards_earned", total_rewards).with_list(
        "active_workers",
        workers,
    ).with_text("connection_status", "Hybrid AI-Verified Mining Active")
}

/// The hourly figure where `worked_out` was worked out: a hundredth at the least.
pub fn hourly_estimate(worked_out: Amount) -> (a: Amount)
    ensures
        a == if (Amount { bits: HUNDREDTH }).at_most(worked_out) {
            worked_out
        } else {
            Amount { bits: HUNDREDTH }
        },
{
    if (Amount { bits: HUNDREDTH }).is_at_most(worked_out) {
        worked_out
    } else {
        Amount { bits: HUNDREDTH }
    }
}

/// What a miner can expect.
pub fn earnings_estimate(hourly: Amount, daily: Amount) -> (r: Reply)
    ensures
        r@ == seq![
            ("estimated_hourly_nvd"@, coins_item(hourly)),
            ("estimated_daily_nvd"@, coins_item(daily)),
        ],
{
    Reply::new().with_coins("estimated_hourly_nvd", hourly).with_coins(
        "estimated_daily_nvd",
        daily,
    )
}

/// What a miner has to come.
pub fn pending_rewards(total_mined: Amount) -> (r: Reply)
    ensures
        r@ == seq![("pending_rewards_nvd"@, coins_item(total_mined))],
{
    Reply::new().with_coins("pending_rewards_nvd", total_mined)
}

/// Where a transaction stands: pending while the pool holds it.
pub fn watch_report(tx_id: &str, in_mempool: i64) -> (r: Reply)
    ensures
        r@ == seq![
            ("tx_id"@, text_item(tx_id@)),
            (
                "status"@,
                text_item(
                    if in_mempool > 0 {
                        "Pending"@
                    } else {
                        "Confirmed or Not Found"@
                    },
                ),
            ),
        ],
{
    let status = if in_mempool > 0 {
        "Pending"
    } else {
        "Confirmed or Not Found"
    };
    Reply::new().with_text("tx_id", tx_id).with_text("status", status)
}

/// What a wallet holds.
pub fn wallet_balance(address: &str, mined: Amount, staked: Amount) -> (r: Reply)
    ensures
        r@ == seq![
            ("address"@, text_item(address@)),
            ("mined_balance"@, coins_item(mined)),
            ("staked_balance"@, coins_item(staked)),
        ],
{
    Reply::new().with_text("address", address).with_coins("mined_balance", mined).with_coins(
        "staked_balance",
        staked,
    )
}

/// What a wallet did: nothing is recorded of it.
pub fn wallet_history(address: &str) -> (r: Reply)
    ensures
        r@ == seq![
            ("address"@, text_item(address@)),
            ("history"@, ItemView::Many(Seq::<RecordView>::empty())),
        ],
{
    let none: Vec<Record> = Vec::new();
    assert(records(none@) =~= Seq::<RecordView>::empty());
    Reply::new().with_text("address", address).with_list("history", none)
}

/// The fee that is recommended.
pub fn fee_estimate() -> (r: Reply)
    ensures
        r@ == seq![("recommended_fee"@, unsigned_item(10))],
{
    Reply::new().with_unsigned("recommended_fee", 10)
}

/// What is said when staking rewards are claimed.
pub fn claim_report() -> (r: Reply)
    ensures
        r@ == seq![
            ("status"@, text_item("success"@)),
            ("claimed_reward"@, coins_item(Amount { bits: TWENTIETH })),
        ],
{
    Reply::new().with_text("status", "success").with_coins(
        "claimed_reward",
        Amount { bits: TWENTIETH },
    )
}

/// A block in the explorer's list.
pub fn explorer_record(
    index: u64,
    timestamp: i64,
    miner: String,
    worker_name: String,
    reward: Amount,
    hash: String,
) -> (r: Record)
    ensures
        r@ == seq![
            ("index"@, ScalarView::Unsigned(index)),
            ("timestamp"@, ScalarView::Signed(timestamp)),
            ("miner"@, ScalarView::Text(miner@)),
            ("worker_name"@, ScalarView::Text(worker_name@)),
            ("reward"@, ScalarView::Coins(reward)),
            ("hash"@, ScalarView::Text(hash@)),
        ],
{
    Record::new().with("index", Scalar::Unsigned(index)).with(
        "timestamp",
        Scalar::Signed(timestamp),
    ).with("miner", Scalar::Text(miner)).with("worker_name", Scalar::Text(worker_name)).with(
        "reward",
        Scalar::Coins(reward),
    ).with("hash", Scalar::Text(hash))
}

/// The explorer's list; without one the store could not be read.
pub fn explorer_report(blocks: Option<Vec<Record>>) -> (r: Reply)
    ensures
        r@ == match blocks {
            Some(list) => seq![
                ("status"@, text_item("success"@)),
                ("recent_blocks"@, ItemView::Many(records(list@))),
            ],
            None => seq![("blocks"@, ItemView::Many(Seq::<RecordView>::empty()))],
        },
{
    match blocks {
        Some(list) => Reply::new().with_text("status", "success").with_list(
            "recent_blocks",
            list,
        ),
        None => {
            let none: Vec<Record> = Vec::new();
            assert(records(none@) =~= Seq::<RecordView>::empty());
            Reply::new().with_list("blocks", none)
        },
    }
}

/// Everything about a wallet.
pub fn wallet_dashboard(
    address: &str,
    mined: Amount,
    staked: Amount,
    total: Amount,
    blocks_mined: i64,
) -> (r: Reply)
    ensures
        r@ == seq![
            ("address"@, text_item(address@)),
            ("mined_balance"@, coins_item(mined)),
            ("staked_balance"@, coins_item(staked)),
            ("total_balance"@, coins_item(total)),
            ("total_blocks_mined"@, signed_item(blocks_mined)),
            ("dashboard_status"@, text_item("Active"@)),
        ],
{
    Reply::new().with_text("address", address).with_coins("mined_balance", mined).with_coins(
        "staked_balance",
        staked,
    ).with_coins("total_balance", total).with_signed("total_blocks_mined", blocks_mined).with_text(
        "dashboard_status",
        "Active",
    )
}

/// The live figures at `server_time`.
pub open spec fn ticker_view(
    live_blocks: i64,
    supply: Amount,
    difficulty: u32,
    server_time: i64,
) -> ReplyView {
    seq![
        ("live_blocks"@, signed_item(live_blocks)),
        ("circulating_supply"@, coins_item(supply)),
        ("difficulty"@, unsigned_item(difficulty as u64)),
        ("server_time"@, signed_item(server_time)),
    ]
}

/// The live figures at `server_time`.
pub fn network_ticker_at(
    live_blocks: i64,
    supply: Amount,
    difficulty: u32,
    server_time: i64,
) -> (r: Reply)
    ensures
        r@ == ticker_view(live_blocks, supply, difficulty, server_time),
{
    Reply::new().with_signed("live_blocks", live_blocks).with_coins(
        "circulating_supply",
        supply,
    ).with_unsigned("difficulty", difficulty as u64).with_signed("server_time", server_time)
}

/// The live figures at the time of the call.
pub fn network_ticker(live_blocks: i64, supply: Amount, difficulty: u32) -> (r: Reply)
    ensures
        exists|server_time: i64|
            server_time >= 0 && r@ == #[trigger] ticker_view(
                live_blocks,
                supply,
                difficulty,
                server_time,
            ),
{
    network_ticker_at(live_blocks, supply, difficulty, utc_seconds())
}

/// A page: its status, whether it is HTML, and its text.
#[derive(Debug)]
pub struct Page {
    pub status: Status,
    pub html: bool,
    pub body: String,
}

/// The start page, where its file could be read.
pub fn index_page(content: Option<String>) -> (p: Page)
    ensures
        match content {
            Some(text) => p.status == Status::Done && p.html && p.body == text,
            None => p.status == Status::NotFound && !p.html && p.body@ == "index.html not found"@,
        },
{
    match content {
        Some(text) => Page { status: Status::Done, html: true, body: text },
        None => Page {
            status: Status::NotFound,
            html: false,
            body: "index.html not found".to_owned(),
        },
    }
}

/// The figures of the network are the ones handed in, whatever they are, beside a greatest
/// supply of nineteen million.
pub proof fn law_network_figures(
    supply: Amount,
    block_count: i64,
    pending_tasks: i64,
    total_staked: Amount,
    difficulty: u32,
    peers: usize,
    r: Reply,
)
    requires
        call_ensures(
            network_stats,
            (supply, block_count, pending_tasks, total_staked, difficulty, peers),
            r,
        ),
    ensures
        r@.len() == 10,
        r@[0] == ("coin_name"@, ItemView::One(ScalarView::Text("NovaMind (NVD)"@))),
        r@[1] == ("circulating_supply"@, ItemView::One(ScalarView::Coins(supply))),
        r@[2] == (
            "max_supply"@,
            ItemView::One(ScalarView::Coins(Amount { bits: 0x4172_1eac_0000_0000 })),
        ),
        r@[3] == ("total_blocks"@, ItemView::One(ScalarView::Signed(block_count))),
        r@[4] == (
            "pending_ai_verification_tasks"@,
            ItemView::One(ScalarView::Signed(pending_tasks)),
        ),
        r@[5] == ("total_staked"@, ItemView::One(ScalarView::Coins(total_staked))),
        r@[6] == ("dynamic_difficulty"@, ItemView::One(ScalarView::Unsigned(difficulty as u64))),
        r@[7] == ("connected_p2p_peers"@, ItemView::One(ScalarView::Unsigned(peers as u64))),
        r@[8] == (
            "security_status"@,
            ItemView::One(ScalarView::Text("Hybrid PoW & AI Trust Active"@)),
        ),
        r@[9] == ("status"@, ItemView::One(ScalarView::Text("Operational"@))),
{
}

/// The figures of the node are the ones handed in, whatever they are.
pub proof fn law_node_figures(
    database_healthy: bool,
    uptime_seconds: u64,
    limited_ips: usize,
    banned_ips: usize,
    health: Reply,
    metrics: Reply,
)
    requires
        call_ensures(node_health, (database_healthy, uptime_seconds), health),
        call_ensures(node_metrics, (uptime_seconds, limited_ips, banned_ips), metrics),
    ensures
        health@.len() == 4,
        health@[0] == ("node"@, ItemView::One(ScalarView::Text("NovaMind Validator"@))),
        health@[1] == ("database_healthy"@, ItemView::One(ScalarView::Flag(database_healthy))),
        health@[2] == ("uptime_seconds"@, ItemView::One(ScalarView::Unsigned(uptime_seconds))),
        health@[3] == ("status"@, ItemView::One(ScalarView::Text("Healthy"@))),
        metrics@.len() == 5,
        metrics@[0] == (
            "node_uptime_seconds"@,
            ItemView::One(ScalarView::Unsigned(uptime_seconds)),
        ),
        metrics@[1] == (
            "active_rate_limited_ips"@,
            ItemView::One(ScalarView::Unsigned(limited_ips as u64)),
        ),
        metrics@[2] == (
            "blacklisted_ips_count"@,
            ItemView::One(ScalarView::Unsigned(banned_ips as u64)),
        ),
        metrics@[3] == (
            "compression_layer"@,
            ItemView::One(ScalarView::Text("Active (gzip/brotli)"@)),
        ),
        metrics@[4] == ("status"@, ItemView::One(ScalarView::Text("Optimal"@))),
{
}

/// A chain is reported valid exactly where its verdict is, and each verdict, and a store that
/// could not be read, has its own message.
pub proof fn law_chain_report(
    verdict: Option<ChainVerdict>,
    r: Reply,
)
    requires
        call_ensures(chain_report, (verdict,), r),
    ensures
        r@.len() == 2,
        r@[0] == ("valid"@, ItemView::One(ScalarView::Flag(verdict == Some(ChainVerdict::Valid)))),
        verdict == Some(ChainVerdict::Valid) ==> r@[1] == (
            "message"@,
            ItemView::One(ScalarView::Text("NovaMind Blockchain fully verified."@)),
        ),
        verdict == Some(ChainVerdict::Broken) ==> r@[1] == (
            "message"@,
            ItemView::One(ScalarView::Text("Chain integrity broken"@)),
        ),
        verdict == Some(ChainVerdict::Tampered) ==> r@[1] == (
            "message"@,
            ItemView::One(ScalarView::Text("Cryptographic tampering detected"@)),
        ),
        verdict is None ==> r@[1] == (
            "message"@,
            ItemView::One(ScalarView::Text("Database error"@)),
        ),
{
}

/// A wallet that was made is reported with its address and its public key, and a vault as it
/// is. Where there is none, an error is reported.
pub proof fn law_wallet_reports(
    w: Wallet,
    made: Reply,
    unmade: Reply,
    vault: String,
    locked: Reply,
    unlocked: Reply,
)
    requires
        call_ensures(wallet_report, (Some(w),), made),
        call_ensures(wallet_report, (None::<Wallet>,), unmade),
        call_ensures(vault_report, (Some(vault),), locked),
        call_ensures(vault_report, (None::<String>,), unlocked),
    ensures
        made@.len() == 4,
        made@[0] == ("status"@, ItemView::One(ScalarView::Text("success"@))),
        made@[1] == ("address"@, ItemView::One(ScalarView::Text(w.address@))),
        made@[2] == ("public_key"@, ItemView::One(ScalarView::Text(w.public_key@))),
        made@[3] == (
            "message"@,
            ItemView::One(ScalarView::Text("NovaMind secure wallet generated."@)),
        ),
        unmade@.len() == 2,
        unmade@[0] == ("status"@, ItemView::One(ScalarView::Text("error"@))),
        unmade@[1] == ("message"@, ItemView::One(ScalarView::Text("Key generation failed"@))),
        locked@.len() == 2,
        locked@[0] == ("status"@, ItemView::One(ScalarView::Text("success"@))),
        locked@[1] == ("encrypted_vault"@, ItemView::One(ScalarView::Text(vault@))),
        unlocked@.len() == 2,
        unlocked@[0] == ("status"@, ItemView::One(ScalarView::Text("error"@))),
        unlocked@[1] == ("message"@, ItemView::One(ScalarView::Text("Password too short"@))),
{
}

/// The figures that a front end opens with are the ones handed in, whatever they are.
pub proof fn law_overview_figures(
    supply: Amount,
    block_count: i64,
    difficulty: u32,
    r: Reply,
)
    requires
        call_ensures(ui_overview, (supply, block_count, difficulty), r),
    ensures
        r@.len() == 6,
        r@[0] == ("network"@, ItemView::One(ScalarView::Text("NovaMind Mainnet"@))),
        r@[1] == ("circulating_supply"@, ItemView::One(ScalarView::Coins(supply))),
        r@[2] == ("total_blocks"@, ItemView::One(ScalarView::Signed(block_count))),
        r@[3] == ("current_difficulty"@, ItemView::One(ScalarView::Unsigned(difficulty as u64))),
        r@[4] == ("ui_ready"@, ItemView::One(ScalarView::Flag(true))),
        r@[5] == ("status"@, ItemView::One(ScalarView::Text("Online"@))),
{
}

/// The figures of a miner are the ones handed in, and its workers are listed all, as they are.
pub proof fn law_miner_figures(
    worker_name: String,
    blocks: i64,
    rewards: Amount,
    worker: Record,
    address: &str,
    blocks_mined: i64,
    total_rewards: Amount,
    workers: Vec<Record>,
    r: Reply,
)
    requires
        call_ensures(worker_record, (worker_name, blocks, rewards), worker),
        call_ensures(miner_dashboard, (address, blocks_mined, total_rewards, workers), r),
    ensures
        worker@.len() == 3,
        worker@[0] == ("worker_name"@, ScalarView::Text(worker_name@)),
        worker@[1] == ("blocks_mined"@, ScalarView::Signed(blocks)),
        worker@[2] == ("rewards_earned"@, ScalarView::Coins(rewards)),
        r@.len() == 5,
        r@[0] == ("miner_address"@, ItemView::One(ScalarView::Text(address@))),
        r@[1] == ("blocks_mined"@, ItemView::One(ScalarView::Signed(blocks_mined))),
        r@[2] == ("total_rewards_earned"@, ItemView::One(ScalarView::Coins(total_rewards))),
        r@[3].0 == "active_workers"@,
        r@[3].1 is Many,
        r@[3].1->Many_0.len() == workers@.len(),
        forall|k: int| 0 <= k < workers@.len() ==> #[trigger] r@[3].1->Many_0[k] == workers@[k]@,
        r@[4] == (
            "connection_status"@,
            ItemView::One(ScalarView::Text("Hybrid AI-Verified Mining Active"@)),
        ),
{
}

/// An hourly figure of a hundredth or more stays as it was worked out; a smaller one, and a
/// pattern that stands for no amount, become a hundredth.
pub proof fn law_hourly_estimate(
    worked_out: Amount,
    a: Amount,
)
    requires
        call_ensures(hourly_estimate, (worked_out,), a),
    ensures
        0x3f84_7ae1_47ae_147b <= worked_out.bits <= 0x7ff0_0000_0000_0000 ==> a == worked_out,
        !(0x3f84_7ae1_47ae_147b <= worked_out.bits <= 0x7ff0_0000_0000_0000) ==> a.bits
            == 0x3f84_7ae1_47ae_147b,
{
    law_key_order(Amount { bits: 0x3f84_7ae1_47ae_147b }, worked_out);
}

/// What a miner can expect and has to come are the amounts handed in, whatever they are.
pub proof fn law_earnings_figures(
    hourly: Amount,
    daily: Amount,
    estimate: Reply,
    total_mined: Amount,
    pending: Reply,
)
    requires
        call_ensures(earnings_estimate, (hourly, daily), estimate),
        call_ensures(pending_rewards, (total_mined,), pending),
    ensures
        estimate@.len() == 2,
        estimate@[0] == ("estimated_hourly_nvd"@, ItemView::One(ScalarView::Coins(hourly))),
        estimate@[1] == ("estimated_daily_nvd"@, ItemView::One(ScalarView::Coins(daily))),
        pending@.len() == 1,
        pending@[0] == ("pending_rewards_nvd"@, ItemView::One(ScalarView::Coins(total_mined))),
{
}

/// A transaction is pending exactly where the pool holds it, and is named as it was asked for.
pub proof fn law_watch_report(
    tx_id: &str,
    in_mempool: i64,
    r: Reply,
)
    requires
        call_ensures(watch_report, (tx_id, in_mempool), r),
    ensures
        r@.len() == 2,
        r@[0] == ("tx_id"@, ItemView::One(ScalarView::Text(tx_id@))),
        in_mempool > 0 ==> r@[1] == ("status"@, ItemView::One(ScalarView::Text("Pending"@))),
        in_mempool <= 0 ==> r@[1] == (
            "status"@,
            ItemView::One(ScalarView::Text("Confirmed or Not Found"@)),
        ),
{
}

/// The figures of a wallet are the ones handed in, whatever they are, and its history is empty.
pub proof fn law_wallet_figures(
    address: &str,
    mined: Amount,
    staked: Amount,
    balance: Reply,
    history: Reply,
    total: Amount,
    blocks_mined: i64,
    dashboard: Reply,
)
    requires
        call_ensures(wallet_balance, (address, mined, staked), balance),
        call_ensures(wallet_history, (address,), history),
        call_ensures(wallet_dashboard, (address, mined, staked, total, blocks_mined), dashboard),
    ensures
        balance@.len() == 3,
        balance@[0] == ("address"@, ItemView::One(ScalarView::Text(address@))),
        balance@[1] == ("mined_balance"@, ItemView::One(ScalarView::Coins(mined))),
        balance@[2] == ("staked_balance"@, ItemView::One(ScalarView::Coins(staked))),
        history@.len() == 2,
        history@[0] == ("address"@, ItemView::One(ScalarView::Text(address@))),
        history@[1].0 == "history"@,
        history@[1].1 is Many,
        history@[1].1->Many_0.len() == 0,
        dashboard@.len() == 6,
        dashboard@[0] == ("address"@, ItemView::One(ScalarView::Text(address@))),
        dashboard@[1] == ("mined_balance"@, ItemView::One(ScalarView::Coins(mined))),
        dashboard@[2] == ("staked_balance"@, ItemView::One(ScalarView::Coins(staked))),
        dashboard@[3] == ("total_balance"@, ItemView::One(ScalarView::Coins(total))),
        dashboard@[4] == ("total_blocks_mined"@, ItemView::One(ScalarView::Signed(blocks_mined))),
        dashboard@[5] == ("dashboard_status"@, ItemView::One(ScalarView::Text("Active"@))),
{
}

/// A block is listed with the figures handed in, and the blocks are listed all, as they are.
/// Where the store could not be read the list is empty.
pub proof fn law_explorer_figures(
    index: u64,
    timestamp: i64,
    miner: String,
    worker_name: String,
    reward: Amount,
    hash: String,
    block: Record,
    blocks: Vec<Record>,
    listed: Reply,
    unread: Reply,
)
    requires
        call_ensures(
            explorer_record,
            (index, timestamp, miner, worker_name, reward, hash),
            block,
        ),
        call_ensures(explorer_report, (Some(blocks),), listed),
        call_ensures(explorer_report, (None::<Vec<Record>>,), unread),
    ensures
        block@.len() == 6,
        block@[0] == ("index"@, ScalarView::Unsigned(index)),
        block@[1] == ("timestamp"@, ScalarView::Signed(timestamp)),
        block@[2] == ("miner"@, ScalarView::Text(miner@)),
        block@[3] == ("worker_name"@, ScalarView::Text(worker_name@)),
        block@[4] == ("reward"@, ScalarView::Coins(reward)),
        block@[5] == ("hash"@, ScalarView::Text(hash@)),
        listed@.len() == 2,
        listed@[0] == ("status"@, ItemView::One(ScalarView::Text("success"@))),
        listed@[1].0 == "recent_blocks"@,
        listed@[1].1 is Many,
        listed@[1].1->Many_0.len() == blocks@.len(),
        forall|k: int| 0 <= k < blocks@.len() ==> #[trigger] listed@[1].1->Many_0[k] == blocks@[k]@,
        unread@.len() == 1,
        unread@[0].0 == "blocks"@,
        unread@[0].1 is Many,
        unread@[0].1->Many_0.len() == 0,
{
}

/// The live figures are the ones handed in, whatever they are, at the time handed in or, where
/// none is, at one not before 1970.
pub proof fn law_live_figures(
    live_blocks: i64,
    supply: Amount,
    difficulty: u32,
    server_time: i64,
    r: Reply,
    now: Reply,
)
    requires
        call_ensures(network_ticker_at, (live_blocks, supply, difficulty, server_time), r),
        call_ensures(network_ticker, (live_blocks, supply, difficulty), now),
    ensures
        r@.len() == 4,
        r@[0] == ("live_blocks"@, ItemView::One(ScalarView::Signed(live_blocks))),
        r@[1] == ("circulating_supply"@, ItemView::One(ScalarView::Coins(supply))),
        r@[2] == ("difficulty"@, ItemView::One(ScalarView::Unsigned(difficulty as u64))),
        r@[3] == ("server_time"@, ItemView::One(ScalarView::Signed(server_time))),
        now@.len() == 4,
        now@[0] == ("live_blocks"@, ItemView::One(ScalarView::Signed(live_blocks))),
        now@[1] == ("circulating_supply"@, ItemView::One(ScalarView::Coins(supply))),
        now@[2] == ("difficulty"@, ItemView::One(ScalarView::Unsigned(difficulty as u64))),
        now@[3].0 == "server_time"@,
        now@[3].1 is One && now@[3].1->One_0 is Signed && now@[3].1->One_0->Signed_0 >= 0,
{
}

/// The start page is the text of its file, as it is, and missing where the file could not be
/// read.
pub proof fn law_start_page(
    text: String,
    found: Page,
    missing: Page,
)
    requires
        call_ensures(index_page, (Some(text),), found),
        call_ensures(index_page, (None::<String>,), missing),
    ensures
        found.status == Status::Done,
        found.html,
        found.body@ == text@,
        missing.status == Status::NotFound,
        !missing.html,
        missing.body@ == "index.html not found"@,
{
}

/// The fee is always ten, and a claim always reports a twentieth.
pub proof fn law_fixed_replies(
    fee: Reply,
    claimed: Reply,
)
    requires
        call_ensures(fee_estimate, (), fee),
        call_ensures(claim_report, (), claimed),
    ensures
        fee@.len() == 1,
        fee@[0] == ("recommended_fee"@, ItemView::One(ScalarView::Unsigned(10))),
        claimed@.len() == 2,
        claimed@[0] == ("status"@, ItemView::One(ScalarView::Text("success"@))),
        claimed@[1] == (
            "claimed_reward"@,
            ItemView::One(ScalarView::Coins(Amount { bits: 0x3fa9_9999_9999_999a })),
        ),
{
}

} // verus!
