use sandwich_detect::decode::{
    decode_instruction_bytes, decode_instruction_data, try_decode, DecodedInstruction,
    BUY_DISCRIMINATOR, SELL_DISCRIMINATOR,
};
use sandwich_detect::ledger::{
    parse_transaction, LedgerTransaction, ParsedMessage, RawInstruction, TokenBalance,
    TransactionMeta,
};
use sandwich_detect::trade::TradeType;

fn payload(disc: [u8; 8], amount: u64, limit: u64) -> Vec<u8> {
    let mut v = disc.to_vec();
    v.extend_from_slice(&amount.to_le_bytes());
    v.extend_from_slice(&limit.to_le_bytes());
    v
}

fn b58(bytes: &[u8]) -> String {
    bs58::encode(bytes).into_string()
}

#[test]
fn buy_payload_round_trips() {
    let raw = payload(BUY_DISCRIMINATOR, 1_234_567, 89_000_000_000);
    assert_eq!(
        decode_instruction_bytes(&raw),
        Some(DecodedInstruction {
            trade_type: TradeType::Buy,
            token_amount_requested: 1_234_567,
            sol_limit_specified: 89_000_000_000,
        })
    );
}

#[test]
fn sell_payload_round_trips_behind_leading_byte() {
    let mut raw = vec![7u8];
    raw.extend(payload(SELL_DISCRIMINATOR, u64::MAX, 1));
    assert_eq!(
        decode_instruction_bytes(&raw),
        Some(DecodedInstruction {
            trade_type: TradeType::Sell,
            token_amount_requested: u64::MAX,
            sol_limit_specified: 1,
        })
    );
}

#[test]
fn short_payload_is_rejected() {
    assert_eq!(decode_instruction_bytes(&[102, 6, 61, 18, 1, 218, 235]), None);
    assert_eq!(decode_instruction_bytes(&[]), None);
}

#[test]
fn unknown_discriminator_is_rejected() {
    let raw = payload([1, 2, 3, 4, 5, 6, 7, 8], 10, 20);
    assert_eq!(decode_instruction_bytes(&raw), None);
}

#[test]
fn wrong_argument_length_is_rejected() {
    let mut raw = payload(BUY_DISCRIMINATOR, 10, 20);
    raw.push(0);
    raw.push(0);
    assert_eq!(decode_instruction_bytes(&raw), None);
    assert_eq!(try_decode(&BUY_DISCRIMINATOR, &[0u8; 15]), None);
}

#[test]
fn try_decode_reads_little_endian_arguments() {
    let mut args = vec![1u8, 0, 0, 0, 0, 0, 0, 0];
    args.extend_from_slice(&[0, 1, 0, 0, 0, 0, 0, 0]);
    assert_eq!(
        try_decode(&SELL_DISCRIMINATOR, &args),
        Some(DecodedInstruction {
            trade_type: TradeType::Sell,
            token_amount_requested: 1,
            sol_limit_specified: 256,
        })
    );
}

#[test]
fn base58_data_decodes() {
    let text = b58(&payload(BUY_DISCRIMINATOR, 500, 600));
    assert_eq!(
        decode_instruction_data(&text),
        Some(DecodedInstruction {
            trade_type: TradeType::Buy,
            token_amount_requested: 500,
            sol_limit_specified: 600,
        })
    );
    assert_eq!(decode_instruction_data("0OIl"), None);
}

fn balance(mint: &str, owner: Option<&str>, amount: &str) -> TokenBalance {
    TokenBalance {
        mint: mint.to_string(),
        owner: owner.map(|o| o.to_string()),
        amount: amount.to_string(),
    }
}

fn ledger_tx(top: Vec<RawInstruction>, inner: Option<Vec<Vec<RawInstruction>>>) -> LedgerTransaction {
    LedgerTransaction {
        slot: 4242,
        message: Some(ParsedMessage {
            account_keys: vec!["Signer1".to_string(), "Program".to_string()],
            instructions: top,
        }),
        meta: Some(TransactionMeta {
            pre_balances: vec![10_000_000_000, 5],
            post_balances: vec![8_500_000_000, 5],
            inner_instructions: inner,
            pre_token_balances: Some(vec![
                balance("MintT", Some("Signer1"), "100"),
                balance("MintT", Some("Other"), "999"),
            ]),
            post_token_balances: Some(vec![
                balance("MintT", Some("Signer1"), "400"),
                balance("MintT", Some("Signer1"), "50"),
                balance("MintU", Some("Signer1"), "77"),
                balance("MintT", None, "1000"),
            ]),
        }),
    }
}

#[test]
fn parse_transaction_reads_top_level_trade() {
    let data = b58(&payload(BUY_DISCRIMINATOR, 350, 2_000_000_000));
    let tx = ledger_tx(vec![RawInstruction::Parsed, RawInstruction::Encoded(data)], None);
    let t = parse_transaction(&tx, "SigXYZ", "MintT").expect("a trade");
    assert_eq!(t.signature, "SigXYZ");
    assert_eq!(t.slot, 4242);
    assert_eq!(t.signer, "Signer1");
    assert_eq!(t.mint, "MintT");
    assert_eq!(t.trade_type, TradeType::Buy);
    assert_eq!(t.token_amount_requested, 350);
    assert_eq!(t.sol_limit_specified, 2_000_000_000);
    assert_eq!(t.sol_change, -1_500_000_000);
    assert_eq!(t.token_change, 350);
}

#[test]
fn parse_transaction_falls_back_to_inner_instructions() {
    let junk = b58(&[1, 2, 3]);
    let data = b58(&payload(SELL_DISCRIMINATOR, 300, 7));
    let tx = ledger_tx(
        vec![RawInstruction::Encoded(junk.clone())],
        Some(vec![vec![RawInstruction::Encoded(junk)], vec![RawInstruction::Encoded(data)]]),
    );
    let t = parse_transaction(&tx, "S", "MintT").expect("a trade");
    assert_eq!(t.trade_type, TradeType::Sell);
    assert_eq!(t.token_amount_requested, 300);
    assert_eq!(t.sol_limit_specified, 7);
}

#[test]
fn parse_transaction_without_trade_is_none() {
    let tx = ledger_tx(vec![RawInstruction::Parsed], Some(vec![vec![RawInstruction::Parsed]]));
    assert!(parse_transaction(&tx, "S", "MintT").is_none());
}

#[test]
fn opaque_transaction_is_none() {
    let tx = LedgerTransaction { slot: 1, message: None, meta: None };
    assert!(parse_transaction(&tx, "S", "MintT").is_none());
}

#[test]
fn missing_token_balances_give_zero_delta() {
    let data = b58(&payload(BUY_DISCRIMINATOR, 1, 1));
    let mut tx = ledger_tx(vec![RawInstruction::Encoded(data)], None);
    let t = parse_transaction(&tx, "S", "MintZ").expect("a trade");
    assert_eq!(t.token_change, 0);
    if let Some(meta) = tx.meta.as_mut() {
        meta.pre_balances = vec![0];
        meta.post_balances = vec![u64::MAX];
    }
    let t = parse_transaction(&tx, "S", "MintZ").expect("a trade");
    assert_eq!(t.sol_change, i64::MAX);
}

#[test]
fn unparsable_amounts_are_skipped() {
    let data = b58(&payload(BUY_DISCRIMINATOR, 1, 1));
    let mut tx = ledger_tx(vec![RawInstruction::Encoded(data)], None);
    if let Some(meta) = tx.meta.as_mut() {
        meta.pre_token_balances = Some(vec![balance("MintT", Some("Signer1"), "12x")]);
        meta.post_token_balances = Some(vec![balance("MintT", Some("Signer1"), "-5")]);
    }
    let t = parse_transaction(&tx, "S", "MintT").expect("a trade");
    assert_eq!(t.token_change, -5);
}
