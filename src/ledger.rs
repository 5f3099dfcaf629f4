//! The ledger record of one transaction, as plain values, and its reduction
//! to a trade: the first buy or sell instruction it carries, with the
//! signer's currency and token balance changes.
use vstd::prelude::*;
use crate::decode::{decode_data, decode_instruction_data, DecodedInstruction};
use crate::numeric::{clamp_i128, clamp_i64, i128_to_i64, saturating_add_i128, saturating_sub_i128};
use crate::trade::ParsedTransaction;

verus! {

/// One instruction of a transaction.
pub enum RawInstruction {
    /// An instruction whose payload is carried as base-58 text (a compiled
    /// or partially decoded instruction).
    Encoded(String),
    /// An instruction that the ledger service has decoded itself; it
    /// carries no payload.
    Parsed,
}

/// One token-balance snapshot entry.
pub struct TokenBalance {
    pub mint: String,
    /// The owning account, where the ledger could resolve it.
    pub owner: Option<String>,
    /// The raw amount as a base-10 integer string.
    pub amount: String,
}

/// The status metadata of a transaction.
pub struct TransactionMeta {
    /// Native balances before execution, indexed like the account keys.
    pub pre_balances: Vec<u64>,
    /// Native balances after execution, indexed like the account keys.
    pub post_balances: Vec<u64>,
    /// Instructions emitted by nested program calls, in groups.
    pub inner_instructions: Option<Vec<Vec<RawInstruction>>>,
    pub pre_token_balances: Option<Vec<TokenBalance>>,
    pub post_token_balances: Option<Vec<TokenBalance>>,
}

/// The structured message of a transaction.
pub struct ParsedMessage {
    /// Account keys, the fee payer and signer first.
    pub account_keys: Vec<String>,
    pub instructions: Vec<RawInstruction>,
}

/// A confirmed transaction as the ledger service returns it.
pub struct LedgerTransaction {
    pub slot: u64,
    /// `None` where the transaction came in an opaque encoding.
    pub message: Option<ParsedMessage>,
    pub meta: Option<TransactionMeta>,
}

/// What one instruction decodes to.
pub open spec fn instruction_decoded(ins: RawInstruction) -> Option<DecodedInstruction> {
    match ins {
        RawInstruction::Encoded(data) => decode_data(data@),
        RawInstruction::Parsed => None,
    }
}

/// The first trade instruction of a sequence, in order.
pub open spec fn first_decoded(s: Seq<RawInstruction>) -> Option<DecodedInstruction>
    decreases s.len(),
{
    if s.len() == 0 {
        None
    } else {
        match instruction_decoded(s[0]) {
            Some(d) => Some(d),
            None => first_decoded(s.drop_first()),
        }
    }
}

/// The first trade instruction of a sequence of groups, group by group.
pub open spec fn first_in_groups(g: Seq<Vec<RawInstruction>>) -> Option<DecodedInstruction>
    decreases g.len(),
{
    if g.len() == 0 {
        None
    } else {
        match first_decoded(g[0]@) {
            Some(d) => Some(d),
            None => first_in_groups(g.drop_first()),
        }
    }
}

/// The trade instruction of a transaction: the first among its top-level
/// instructions, else the first among its inner instructions.
pub open spec fn transaction_instruction(m: ParsedMessage, meta: Option<TransactionMeta>) -> Option<
    DecodedInstruction,
> {
    match first_decoded(m.instructions@) {
        Some(d) => Some(d),
        None => match meta {
            Some(meta) => match meta.inner_instructions {
                Some(groups) => first_in_groups(groups@),
                None => None,
            },
            None => None,
        },
    }
}

/// The value of a decimal digit string.
pub open spec fn digits_value(s: Seq<char>) -> int
    decreases s.len(),
{
    if s.len() == 0 {
        0
    } else {
        10 * digits_value(s.drop_last()) + ((s.last() as u32) as int - 48)
    }
}

/// The integer that base-10 text denotes: an optional `+` or `-` sign
/// followed by one or more ASCII digits.
pub open spec fn decimal_value(s: Seq<char>) -> Option<int> {
    let signed = s.len() > 0 && (s[0] == '-' || s[0] == '+');
    let digits = if signed { s.drop_first() } else { s };
    if digits.len() > 0 && forall|i: int| 0 <= i < digits.len() ==> '0' <= #[trigger] digits[i] <= '9' {
        Some(if signed && s[0] == '-' { -digits_value(digits) } else { digits_value(digits) })
    } else {
        None
    }
}

/// What `str::parse::<i128>` returns for `s`.
pub open spec fn parsed_i128(s: Seq<char>) -> Option<i128> {
    match decimal_value(s) {
        Some(v) => if i128::MIN <= v <= i128::MAX {
            Some(v as i128)
        } else {
            None
        },
        None => None,
    }
}

/// Relies on `str::parse::<i128>`: an optional sign followed by digits, and
/// an error for anything else or for a value outside `i128`.
#[verifier::external_body]
fn parse_amount(s: &str) -> (r: Option<i128>)
    ensures
        r == parsed_i128(s@),
{
    s.parse::<i128>().ok()
}

/// Whether a token-balance entry is counted for `owner` and `mint`.
pub open spec fn entry_counts(e: TokenBalance, owner: Seq<char>, mint: Seq<char>) -> bool {
    &&& e.mint@ == mint
    &&& e.owner matches Some(o) && o@ == owner
    &&& parsed_i128(e.amount@).is_some()
}

/// The total of the entries counted for `owner` and `mint`, saturating at
/// the bounds of `i128`; `None` when no entry is counted.
pub open spec fn token_total(s: Seq<TokenBalance>, owner: Seq<char>, mint: Seq<char>) -> Option<i128>
    decreases s.len(),
{
    if s.len() == 0 {
        None
    } else {
        let prev = token_total(s.drop_last(), owner, mint);
        if entry_counts(s.last(), owner, mint) {
            Some(clamp_i128(prev.unwrap_or(0) + parsed_i128(s.last().amount@).unwrap()))
        } else {
            prev
        }
    }
}

/// `token_total` over a snapshot list that may be missing.
pub open spec fn snapshot_total(b: Option<Vec<TokenBalance>>, owner: Seq<char>, mint: Seq<char>) -> Option<i128> {
    match b {
        Some(v) => token_total(v@, owner, mint),
        None => None,
    }
}

/// The signer's currency change: its native balance after less before,
/// where both are recorded, else zero.
pub open spec fn sol_change_of(meta: TransactionMeta) -> i64 {
    if meta.pre_balances@.len() > 0 && meta.post_balances@.len() > 0 {
        clamp_i64(meta.post_balances@[0] - meta.pre_balances@[0])
    } else {
        0
    }
}

/// The signer's token change: the counted total after less before, clamped
/// into `i64`; zero when neither snapshot counts an entry.
pub open spec fn token_change_of(meta: TransactionMeta, owner: Seq<char>, mint: Seq<char>) -> i64 {
    let pre = snapshot_total(meta.pre_token_balances, owner, mint);
    let post = snapshot_total(meta.post_token_balances, owner, mint);
    if pre.is_none() && post.is_none() {
        0
    } else {
        clamp_i64(post.unwrap_or(0) - pre.unwrap_or(0))
    }
}

/// `t` is the trade that `tx`, known by the id `signature`, records on the
/// token `mint`.
pub open spec fn records_trade(
    tx: LedgerTransaction,
    signature: Seq<char>,
    mint: Seq<char>,
    t: ParsedTransaction,
) -> bool {
    &&& tx.message matches Some(m)
    &&& m.account_keys@.len() > 0
    &&& transaction_instruction(m, tx.meta) matches Some(d)
    &&& t.signature@ == signature
    &&& t.slot == tx.slot
    &&& t.signer@ == m.account_keys@[0]@
    &&& t.mint@ == mint
    &&& t.trade_type == d.trade_type
    &&& t.token_amount_requested == d.token_amount_requested
    &&& t.sol_limit_specified == d.sol_limit_specified
    &&& t.sol_change == match tx.meta {
        Some(meta) => sol_change_of(meta),
        None => 0,
    }
    &&& t.token_change == match tx.meta {
        Some(meta) => token_change_of(meta, m.account_keys@[0]@, mint),
        None => 0,
    }
}

/// Whether `tx` carries a trade instruction at all.
pub open spec fn has_trade(tx: LedgerTransaction) -> bool {
    &&& tx.message matches Some(m)
    &&& m.account_keys@.len() > 0
    &&& transaction_instruction(m, tx.meta).is_some()
}

/// Returns the first trade instruction of `instructions`.
pub fn scan_instruction_stream(instructions: &Vec<RawInstruction>) -> (r: Option<DecodedInstruction>)
    ensures
        r == first_decoded(instructions@),
{
    let mut i: usize = 0;
    assert(instructions@.skip(0) =~= instructions@);
    while i < instructions.len()
        invariant
            i <= instructions@.len(),
            first_decoded(instructions@) == first_decoded(instructions@.skip(i as int)),
        decreases instructions.len() - i,
    {
        let hit = decode_pump_instruction(&instructions[i]);
        if hit.is_some() {
            return hit;
        }
        assert(instructions@.skip(i as int).drop_first() =~= instructions@.skip(i + 1));
        i = i + 1;
    }
    None
}

/// Decodes one instruction.
pub fn decode_pump_instruction(instruction: &RawInstruction) -> (r: Option<DecodedInstruction>)
    ensures
        r == instruction_decoded(*instruction),
{
    match instruction {
        RawInstruction::Encoded(data) => decode_instruction_data(data.as_str()),
        RawInstruction::Parsed => None,
    }
}

/// Returns the first trade instruction among groups of inner instructions.
fn scan_inner_groups(groups: &Vec<Vec<RawInstruction>>) -> (r: Option<DecodedInstruction>)
    ensures
        r == first_in_groups(groups@),
{
    let mut i: usize = 0;
    assert(groups@.skip(0) =~= groups@);
    while i < groups.len()
        invariant
            i <= groups@.len(),
            first_in_groups(groups@) == first_in_groups(groups@.skip(i as int)),
        decreases groups.len() - i,
    {
        let hit = scan_instruction_stream(&groups[i]);
        if hit.is_some() {
            return hit;
        }
        assert(groups@.skip(i as int).drop_first() =~= groups@.skip(i + 1));
        i = i + 1;
    }
    None
}

/// The signer's currency change, from the native balances at index 0.
pub fn compute_sol_change(meta: &TransactionMeta) -> (r: Option<i64>)
    ensures
        r == if meta.pre_balances@.len() > 0 && meta.post_balances@.len() > 0 {
            Some(sol_change_of(*meta))
        } else {
            None
        },
{
    if meta.pre_balances.len() == 0 || meta.post_balances.len() == 0 {
        return None;
    }
    let pre = meta.pre_balances[0] as i128;
    let post = meta.post_balances[0] as i128;
    Some(i128_to_i64(post - pre))
}

/// The total of the entries of `balances` counted for `owner` and `mint`.
pub fn extract_token_total(balances: &Option<Vec<TokenBalance>>, owner: &String, mint: &String) -> (r: Option<i128>)
    ensures
        r == snapshot_total(*balances, owner@, mint@),
{
    match balances {
        None => None,
        Some(entries) => {
            let mut total: i128 = 0;
            let mut found = false;
            let mut i: usize = 0;
            while i < entries.len()
                invariant
                    i <= entries@.len(),
                    token_total(entries@.take(i as int), owner@, mint@) == if found {
                        Some(total)
                    } else {
                        None
                    },
                    !found ==> total == 0,
                decreases entries.len() - i,
            {
                let e = &entries[i];
                assert(entries@.take(i + 1).drop_last() =~= entries@.take(i as int));
                if e.mint == *mint {
                    match &e.owner {
                        Some(o) => {
                            if *o == *owner {
                                match parse_amount(e.amount.as_str()) {
                                    Some(amount) => {
                                        total = saturating_add_i128(total, amount);
                                        found = true;
                                    },
                                    None => {},
                                }
                            }
                        },
                        None => {},
                    }
                }
                i = i + 1;
            }
            assert(entries@.take(entries@.len() as int) =~= entries@);
            if found {
                Some(total)
            } else {
                None
            }
        },
    }
}

/// The signer's token change for `mint`, or `None` when neither snapshot
/// counts an entry.
pub fn compute_token_change(meta: &TransactionMeta, owner: &String, mint: &String) -> (r: Option<i64>)
    ensures
        r == if snapshot_total(meta.pre_token_balances, owner@, mint@).is_none()
            && snapshot_total(meta.post_token_balances, owner@, mint@).is_none() {
            None
        } else {
            Some(token_change_of(*meta, owner@, mint@))
        },
{
    let pre = extract_token_total(&meta.pre_token_balances, owner, mint);
    let post = extract_token_total(&meta.post_token_balances, owner, mint);
    if pre.is_none() && post.is_none() {
        return None;
    }
    let pre_v: i128 = match pre {
        Some(v) => v,
        None => 0,
    };
    let post_v: i128 = match post {
        Some(v) => v,
        None => 0,
    };
    Some(i128_to_i64(saturating_sub_i128(post_v, pre_v)))
}

/// Reduces a ledger transaction to the trade it records on the token
/// `mint_address`, or `None` when its message is opaque, it lists no
/// account, or it carries no buy or sell instruction.
pub fn parse_transaction(tx: &LedgerTransaction, signature: &str, mint_address: &str) -> (r: Option<
    ParsedTransaction,
>)
    ensures
        r.is_some() == has_trade(*tx),
        r matches Some(t) ==> records_trade(*tx, signature@, mint_address@, t),
{
    let message = match &tx.message {
        Some(m) => m,
        None => return None,
    };
    if message.account_keys.len() == 0 {
        return None;
    }
    let signer = message.account_keys[0].clone();
    let mint = mint_address.to_owned();
    let mut decoded = scan_instruction_stream(&message.instructions);
    if decoded.is_none() {
        match &tx.meta {
            Some(meta) => match &meta.inner_instructions {
                Some(groups) => {
                    decoded = scan_inner_groups(groups);
                },
                None => {},
            },
            None => {},
        }
    }
    match decoded {
        None => None,
        Some(d) => {
            let (sol_change, token_change) = match &tx.meta {
                Some(meta) => {
                    let s = match compute_sol_change(meta) {
                        Some(v) => v,
                        None => 0,
                    };
                    let t = match compute_token_change(meta, &signer, &mint) {
                        Some(v) => v,
                        None => 0,
                    };
                    (s, t)
                },
                None => (0, 0),
            };
            Some(
                ParsedTransaction {
                    signature: signature.to_owned(),
                    slot: tx.slot,
                    signer,
                    mint,
                    trade_type: d.trade_type,
                    token_amount_requested: d.token_amount_requested,
                    sol_limit_specified: d.sol_limit_specified,
                    sol_change,
                    token_change,
                },
            )
        },
    }
}

} // verus!
