use sandwich_detect::simulate::PumpAmmState;

fn expected_buy(sol_in: u64) -> u64 {
    let fee = std::cmp::max(sol_in as u128 * 30 / 10_000, 1) as u64;
    let after = sol_in - fee;
    (after as u128 * 1_073_000_000_000_000u128 / (30_000_000_000u128 + after as u128)) as u64
}

#[test]
fn genesis_reserves() {
    let amm = PumpAmmState::new();
    assert_eq!(amm.virtual_sol, 30_000_000_000);
    assert_eq!(amm.virtual_token, 1_073_000_000_000_000);
    assert_eq!(amm.real_sol, 0);
    assert_eq!(amm.real_token, 793_100_000_000_000);
}

#[test]
fn one_sol_buy_at_genesis() {
    let mut amm = PumpAmmState::new();
    let expected = expected_buy(1_000_000_000);
    assert_eq!(expected, 34_512_404_426_234);
    let (tokens, paid) = amm.simulate_buy(1_000_000_000, expected);
    assert_eq!(tokens, expected);
    assert_eq!(paid, 1_000_000_000);
    assert_eq!(amm.virtual_sol, 30_997_000_000);
    assert_eq!(amm.virtual_token, 1_073_000_000_000_000 - expected);
    assert_eq!(amm.real_sol, 1_000_000_000);
    assert_eq!(amm.real_token, 793_100_000_000_000 - expected);
}

#[test]
fn buy_one_above_limit_is_rejected() {
    let mut amm = PumpAmmState::new();
    let before = amm.clone();
    let (tokens, paid) = amm.simulate_buy(1_000_000_000, expected_buy(1_000_000_000) + 1);
    assert_eq!(tokens, 0);
    assert_eq!(paid, 1_000_000_000);
    assert_eq!(amm, before);
}

#[test]
fn tiny_buy_pays_minimum_fee() {
    let mut amm = PumpAmmState::new();
    let before = amm.clone();
    let (tokens, _) = amm.simulate_buy(1, 0);
    assert_eq!(tokens, 0);
    assert_eq!(amm, before);
}

#[test]
fn round_trip_returns_less_than_paid() {
    let mut amm = PumpAmmState::new();
    let start = amm.clone();
    let (tokens, paid) = amm.simulate_buy(2_000_000_000, 0);
    assert!(tokens > 0);
    let back = amm.simulate_sell(tokens, 0);
    assert!(back > 0);
    assert!(back < paid);
    assert!(amm.virtual_sol >= start.virtual_sol);
}

#[test]
fn sell_applies_fee_and_constant_product() {
    let mut amm = PumpAmmState::new();
    let out = amm.simulate_sell(1_000_000_000_000, 0);
    let after = 1_000_000_000_000u128 - 3_000_000_000;
    let expected = (after * 30_000_000_000 / (1_073_000_000_000_000 + after)) as u64;
    assert_eq!(out, expected);
    assert_eq!(amm.virtual_sol, 30_000_000_000 - expected);
    assert_eq!(amm.real_sol, 0);
    assert_eq!(amm.real_token, 793_100_000_000_000 + 1_000_000_000_000);
}

#[test]
fn sell_below_minimum_is_rejected() {
    let mut amm = PumpAmmState::new();
    let before = amm.clone();
    assert_eq!(amm.simulate_sell(1_000_000, u64::MAX), 0);
    assert_eq!(amm, before);
}
