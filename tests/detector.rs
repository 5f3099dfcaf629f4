use sandwich_detect::detect::{analyze_execution, detect_wide_attacks, DetectorConfig};
use sandwich_detect::numeric::{i128_to_i64, negative_amount, positive_amount};
use sandwich_detect::trade::{occurs_after, occurs_before, trade_badge, ParsedTransaction, TradeType};

const SOL: i64 = 1_000_000_000;

#[allow(clippy::too_many_arguments)]
fn trade(
    sig: &str,
    slot: u64,
    signer: &str,
    kind: TradeType,
    requested: u64,
    limit: u64,
    sol_change: i64,
    token_change: i64,
) -> ParsedTransaction {
    ParsedTransaction {
        signature: sig.to_string(),
        slot,
        signer: signer.to_string(),
        mint: "T".to_string(),
        trade_type: kind,
        token_amount_requested: requested,
        sol_limit_specified: limit,
        sol_change,
        token_change,
    }
}

fn scenario() -> Vec<ParsedTransaction> {
    vec![
        trade("sigA", 100, "S1", TradeType::Buy, 1000, 5 * SOL as u64, -6 * SOL, 900),
        trade("sigB", 100, "S2", TradeType::Buy, 2000, 10 * SOL as u64, -12 * SOL, 1800),
        trade("sigC", 101, "S1", TradeType::Sell, 900, 8 * SOL as u64, 8 * SOL, -900),
    ]
}

#[test]
fn end_to_end_sandwich() {
    let trades = scenario();
    let summary = detect_wide_attacks(&trades, &DetectorConfig::default());
    assert_eq!(summary.sandwiches.len(), 1);
    let d = &summary.sandwiches[0];
    assert_eq!(d.victim.signature, "sigB");
    assert_eq!(d.frontruns.len(), 1);
    assert_eq!(d.frontruns[0].signature, "sigA");
    assert_eq!(d.backruns.len(), 1);
    assert_eq!(d.backruns[0].signature, "sigC");
    assert_eq!(d.net_profit_sol, 2 * SOL);
    assert_eq!(d.net_token_delta, 0);
    assert_eq!(summary.front_runs.len(), 1);
    assert_eq!(summary.front_runs[0].victim.signature, "sigB");
    assert_eq!(summary.back_runs.len(), 2);
    assert_eq!(summary.back_runs[0].victim.signature, "sigA");
    assert_eq!(summary.back_runs[1].victim.signature, "sigB");
}

#[test]
fn empty_batch_gives_empty_summary() {
    let summary = detect_wide_attacks(&[], &DetectorConfig::default());
    assert!(summary.front_runs.is_empty());
    assert!(summary.back_runs.is_empty());
    assert!(summary.sandwiches.is_empty());
}

#[test]
fn fair_victim_is_never_reported() {
    let mut trades = scenario();
    trades[1].sol_change = -10 * SOL;
    trades[1].token_change = 2000;
    let summary = detect_wide_attacks(&trades, &DetectorConfig::default());
    assert!(summary.sandwiches.is_empty());
    assert!(summary.front_runs.iter().all(|e| e.victim.signature != "sigB"));
    assert!(summary.back_runs.iter().all(|e| e.victim.signature != "sigB"));
}

#[test]
fn single_trade_signer_is_not_a_leg() {
    let mut trades = scenario();
    trades[2].signer = "S3".to_string();
    let summary = detect_wide_attacks(&trades, &DetectorConfig::default());
    assert!(summary.sandwiches.is_empty());
    assert!(summary.front_runs.is_empty());
    assert!(summary.back_runs.is_empty());
}

#[test]
fn profit_gate_is_tight() {
    let trades = scenario();
    let mut cfg = DetectorConfig::default();
    cfg.min_profit_lamports = 2 * SOL;
    assert_eq!(detect_wide_attacks(&trades, &cfg).sandwiches.len(), 1);
    cfg.min_profit_lamports = 2 * SOL + 1;
    let summary = detect_wide_attacks(&trades, &cfg);
    assert!(summary.sandwiches.is_empty());
    assert_eq!(summary.front_runs.len(), 1);
}

#[test]
fn small_victim_is_skipped() {
    let trades = scenario();
    let mut cfg = DetectorConfig::default();
    cfg.min_victim_abs_lamports = 20 * SOL as u64;
    cfg.min_victim_abs_token = 1_000_000;
    let summary = detect_wide_attacks(&trades, &cfg);
    assert!(summary.sandwiches.is_empty());
    assert!(summary.front_runs.is_empty());
    assert!(summary.back_runs.is_empty());
}

#[test]
fn zero_gap_and_zero_thresholds_are_accepted() {
    let trades = scenario();
    let cfg = DetectorConfig {
        max_slot_gap: 0,
        min_victim_abs_lamports: 0,
        min_victim_abs_token: 0,
        min_profit_lamports: 0,
        min_bot_trades: 0,
    };
    let summary = detect_wide_attacks(&trades, &cfg);
    // with a gap of zero the back-run at height 101 is out of reach
    assert!(summary.sandwiches.is_empty());
    assert_eq!(summary.front_runs.len(), 1);
    assert_eq!(summary.front_runs[0].frontruns[0].signature, "sigA");
}

#[test]
fn victims_come_in_height_order() {
    let mut trades = scenario();
    trades.reverse();
    let summary = detect_wide_attacks(&trades, &DetectorConfig::default());
    assert_eq!(summary.back_runs.len(), 2);
    assert_eq!(summary.back_runs[0].victim.signature, "sigB");
    assert_eq!(summary.back_runs[1].victim.signature, "sigA");
    assert_eq!(summary.sandwiches.len(), 1);
}

#[test]
fn default_config_values() {
    let cfg = DetectorConfig::default();
    assert_eq!(cfg.max_slot_gap, 3);
    assert_eq!(cfg.min_victim_abs_lamports, 10_000_000);
    assert_eq!(cfg.min_victim_abs_token, 100_000_000);
    assert_eq!(cfg.min_profit_lamports, 10_000);
    assert_eq!(cfg.min_bot_trades, 2);
}

#[test]
fn execution_breaches() {
    let t = scenario();
    let b = analyze_execution(&t[1]);
    assert!(b.price_limit && b.amount_limit && b.any());
    let c = analyze_execution(&t[2]);
    assert!(!c.price_limit && !c.amount_limit && !c.any());
    let mut s = t[2].clone();
    s.sol_change = 7 * SOL;
    s.token_change = -901;
    let c = analyze_execution(&s);
    assert!(c.price_limit && c.amount_limit);
}

#[test]
fn ordering_by_height_then_id() {
    let t = scenario();
    assert!(occurs_before(&t[0], &t[1]));
    assert!(!occurs_before(&t[1], &t[0]));
    assert!(occurs_after(&t[1], &t[0]));
    assert!(occurs_before(&t[1], &t[2]));
    assert!(!occurs_before(&t[0], &t[0]));
    let mut early = t[2].clone();
    early.slot = 99;
    assert!(occurs_before(&early, &t[0]));
    let mut prefix = t[0].clone();
    prefix.signature = "sig".to_string();
    assert!(occurs_before(&prefix, &t[0]));
}

#[test]
fn numeric_helpers_saturate() {
    assert_eq!(i128_to_i64(i128::MAX), i64::MAX);
    assert_eq!(i128_to_i64(i128::MIN), i64::MIN);
    assert_eq!(i128_to_i64(-42), -42);
    assert_eq!(negative_amount(i64::MIN), 1u64 << 63);
    assert_eq!(negative_amount(5), 0);
    assert_eq!(positive_amount(-5), 0);
    assert_eq!(positive_amount(5), 5);
}

#[test]
fn badges() {
    assert_eq!(trade_badge(TradeType::Buy), "BUY");
    assert_eq!(trade_badge(TradeType::Sell), "SELL");
}
