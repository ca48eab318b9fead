use novamind::amount::Amount;
use novamind::answers;
use novamind::chain::ChainVerdict;
use novamind::reply::{Item, Record, Reply, Scalar};
use novamind::status::Status;
use novamind::wallet::Wallet;

fn amount(x: f64) -> Amount {
    Amount { bits: x.to_bits() }
}

fn scalar(s: &Scalar) -> String {
    match s {
        Scalar::Flag(b) => b.to_string(),
        Scalar::Unsigned(n) => n.to_string(),
        Scalar::Signed(i) => i.to_string(),
        Scalar::Coins(a) => format!("{:?}", f64::from_bits(a.bits)),
        Scalar::Text(t) => format!("{:?}", t),
    }
}

fn record(r: &Record) -> String {
    let fields: Vec<String> =
        r.fields.iter().map(|(name, value)| format!("{}={}", name, scalar(value))).collect();
    fields.join(";")
}

fn reply(r: &Reply) -> Vec<String> {
    r.fields
        .iter()
        .map(|(name, item)| match item {
            Item::One(value) => format!("{}={}", name, scalar(value)),
            Item::Many(rows) => {
                let rows: Vec<String> = rows.iter().map(record).collect();
                format!("{}=[{}]", name, rows.join("|"))
            }
        })
        .collect()
}

#[test]
fn network_stats_reply() {
    let r = answers::network_stats(amount(20.5), 3, 4, amount(1.5), 7, 2);
    assert_eq!(
        reply(&r),
        vec![
            "coin_name=\"NovaMind (NVD)\"",
            "circulating_supply=20.5",
            "max_supply=19000000.0",
            "total_blocks=3",
            "pending_ai_verification_tasks=4",
            "total_staked=1.5",
            "dynamic_difficulty=7",
            "connected_p2p_peers=2",
            "security_status=\"Hybrid PoW & AI Trust Active\"",
            "status=\"Operational\"",
        ]
    );
}

#[test]
fn node_replies() {
    assert_eq!(
        reply(&answers::node_health(true, 12)),
        vec![
            "node=\"NovaMind Validator\"",
            "database_healthy=true",
            "uptime_seconds=12",
            "status=\"Healthy\"",
        ]
    );
    assert_eq!(
        reply(&answers::node_metrics(12, 3, 1)),
        vec![
            "node_uptime_seconds=12",
            "active_rate_limited_ips=3",
            "blacklisted_ips_count=1",
            "compression_layer=\"Active (gzip/brotli)\"",
            "status=\"Optimal\"",
        ]
    );
}

#[test]
fn chain_verdict_replies() {
    assert_eq!(
        reply(&answers::chain_report(Some(ChainVerdict::Valid))),
        vec!["valid=true", "message=\"NovaMind Blockchain fully verified.\""]
    );
    assert_eq!(
        reply(&answers::chain_report(Some(ChainVerdict::Broken))),
        vec!["valid=false", "message=\"Chain integrity broken\""]
    );
    assert_eq!(
        reply(&answers::chain_report(Some(ChainVerdict::Tampered))),
        vec!["valid=false", "message=\"Cryptographic tampering detected\""]
    );
    assert_eq!(
        reply(&answers::chain_report(None)),
        vec!["valid=false", "message=\"Database error\""]
    );
}

#[test]
fn wallet_replies() {
    let w = Wallet { address: "nvd_x".to_string(), public_key: "pk".to_string() };
    assert_eq!(
        reply(&answers::wallet_report(Some(w))),
        vec![
            "status=\"success\"",
            "address=\"nvd_x\"",
            "public_key=\"pk\"",
            "message=\"NovaMind secure wallet generated.\"",
        ]
    );
    assert_eq!(
        reply(&answers::wallet_report(None)),
        vec!["status=\"error\"", "message=\"Key generation failed\""]
    );
    assert_eq!(
        reply(&answers::vault_report(Some("v".to_string()))),
        vec!["status=\"success\"", "encrypted_vault=\"v\""]
    );
    assert_eq!(
        reply(&answers::vault_report(None)),
        vec!["status=\"error\"", "message=\"Password too short\""]
    );
    assert_eq!(
        reply(&answers::wallet_balance("a", amount(1.0), amount(2.0))),
        vec!["address=\"a\"", "mined_balance=1.0", "staked_balance=2.0"]
    );
    assert_eq!(reply(&answers::wallet_history("a")), vec!["address=\"a\"", "history=[]"]);
    assert_eq!(reply(&answers::fee_estimate()), vec!["recommended_fee=10"]);
    assert_eq!(
        reply(&answers::wallet_dashboard("a", amount(1.0), amount(2.0), amount(3.0), 5)),
        vec![
            "address=\"a\"",
            "mined_balance=1.0",
            "staked_balance=2.0",
            "total_balance=3.0",
            "total_blocks_mined=5",
            "dashboard_status=\"Active\"",
        ]
    );
}

#[test]
fn miner_replies() {
    let workers = vec![
        answers::worker_record("w1".to_string(), 2, amount(9.5)),
        answers::worker_record("w2".to_string(), 1, amount(0.25)),
    ];
    assert_eq!(
        reply(&answers::miner_dashboard("m", 3, amount(9.75), workers)),
        vec![
            "miner_address=\"m\"",
            "blocks_mined=3",
            "total_rewards_earned=9.75",
            "active_workers=[worker_name=\"w1\";blocks_mined=2;rewards_earned=9.5|worker_name=\"w2\";blocks_mined=1;rewards_earned=0.25]",
            "connection_status=\"Hybrid AI-Verified Mining Active\"",
        ]
    );
    assert_eq!(
        reply(&answers::earnings_estimate(amount(0.5), amount(12.0))),
        vec!["estimated_hourly_nvd=0.5", "estimated_daily_nvd=12.0"]
    );
    assert_eq!(reply(&answers::pending_rewards(amount(4.5))), vec!["pending_rewards_nvd=4.5"]);
}

#[test]
fn hourly_estimate_is_a_hundredth_at_least() {
    for mined in [0i64, 1, 2, 1000] {
        let raw = mined as f64 * 0.05;
        assert_eq!(answers::hourly_estimate(amount(raw)), amount(raw.max(0.01)));
    }
    assert_eq!(answers::hourly_estimate(amount(0.009)), amount(0.01));
    assert_eq!(answers::hourly_estimate(amount(f64::NAN)), amount(f64::NAN.max(0.01)));
}

#[test]
fn network_replies() {
    assert_eq!(
        reply(&answers::ui_overview(amount(10.0), 1, 2)),
        vec![
            "network=\"NovaMind Mainnet\"",
            "circulating_supply=10.0",
            "total_blocks=1",
            "current_difficulty=2",
            "ui_ready=true",
            "status=\"Online\"",
        ]
    );
    assert_eq!(
        reply(&answers::network_ticker_at(1, amount(10.0), 2, 77)),
        vec!["live_blocks=1", "circulating_supply=10.0", "difficulty=2", "server_time=77"]
    );
    let r = answers::network_ticker(1, amount(10.0), 2);
    assert!(matches!(r.fields[3].1, Item::One(Scalar::Signed(t)) if t > 1_600_000_000));
}

#[test]
fn transaction_and_stake_replies() {
    assert_eq!(
        reply(&answers::watch_report("t", 1)),
        vec!["tx_id=\"t\"", "status=\"Pending\""]
    );
    assert_eq!(
        reply(&answers::watch_report("t", 0)),
        vec!["tx_id=\"t\"", "status=\"Confirmed or Not Found\""]
    );
    assert_eq!(
        reply(&answers::claim_report()),
        vec!["status=\"success\"", "claimed_reward=0.05"]
    );
}

#[test]
fn explorer_replies() {
    let b = answers::explorer_record(
        4,
        5,
        "m".to_string(),
        "w".to_string(),
        amount(9.5),
        "h".to_string(),
    );
    assert_eq!(
        reply(&answers::explorer_report(Some(vec![b]))),
        vec![
            "status=\"success\"",
            "recent_blocks=[index=4;timestamp=5;miner=\"m\";worker_name=\"w\";reward=9.5;hash=\"h\"]",
        ]
    );
    assert_eq!(reply(&answers::explorer_report(None)), vec!["blocks=[]"]);
}

#[test]
fn start_page() {
    let p = answers::index_page(Some("<p>".to_string()));
    assert_eq!((p.status, p.html, p.body.as_str()), (Status::Done, true, "<p>"));
    let p = answers::index_page(None);
    assert_eq!(
        (p.status, p.html, p.body.as_str()),
        (Status::NotFound, false, "index.html not found")
    );
}
