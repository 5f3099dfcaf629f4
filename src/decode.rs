//! Decoding of the bonding-curve program's buy and sell instructions: an
//! 8-byte opcode discriminator followed by two little-endian `u64`
//! arguments, carried as base-58 text.
use vstd::prelude::*;
use vstd::slice::slice_subrange;
use borsh::BorshDeserialize;
use crate::trade::TradeType;

verus! {

/// Opcode of the program's buy instruction.
pub const BUY_DISCRIMINATOR: [u8; 8] = [102, 6, 61, 18, 1, 218, 235, 234];

/// Opcode of the program's sell instruction.
pub const SELL_DISCRIMINATOR: [u8; 8] = [51, 230, 133, 164, 1, 127, 131, 173];

/// The buy opcode as a sequence of bytes.
pub open spec fn buy_opcode() -> Seq<u8> {
    seq![102u8, 6u8, 61u8, 18u8, 1u8, 218u8, 235u8, 234u8]
}

/// The sell opcode as a sequence of bytes.
pub open spec fn sell_opcode() -> Seq<u8> {
    seq![51u8, 230u8, 133u8, 164u8, 1u8, 127u8, 131u8, 173u8]
}

/// The instruction's arguments: what the trader asked for.
#[derive(Debug, Clone, Copy, PartialEq, Eq, Structural)]
pub struct DecodedInstruction {
    pub trade_type: TradeType,
    pub token_amount_requested: u64,
    pub sol_limit_specified: u64,
}

/// The unsigned value of `b` read as a little-endian number.
pub open spec fn le_value(b: Seq<u8>) -> int
    decreases b.len(),
{
    if b.len() == 0 {
        0
    } else {
        b[0] as int + 256 * le_value(b.drop_first())
    }
}

/// The `n` low bytes of `x`, least significant first.
pub open spec fn le_bytes(x: nat, n: nat) -> Seq<u8>
    decreases n,
{
    if n == 0 {
        Seq::empty()
    } else {
        seq![(x % 256) as u8] + le_bytes(x / 256, (n - 1) as nat)
    }
}

/// What a candidate discriminator window and the bytes after it decode to.
pub open spec fn decode_window(disc: Seq<u8>, args: Seq<u8>) -> Option<DecodedInstruction> {
    if args.len() != 16 {
        None
    } else if disc == buy_opcode() {
        Some(
            DecodedInstruction {
                trade_type: TradeType::Buy,
                token_amount_requested: le_value(args.subrange(0, 8)) as u64,
                sol_limit_specified: le_value(args.subrange(8, 16)) as u64,
            },
        )
    } else if disc == sell_opcode() {
        Some(
            DecodedInstruction {
                trade_type: TradeType::Sell,
                token_amount_requested: le_value(args.subrange(0, 8)) as u64,
                sol_limit_specified: le_value(args.subrange(8, 16)) as u64,
            },
        )
    } else {
        None
    }
}

/// What a raw instruction payload decodes to: the window at offset 0 is
/// tried first, then, for payloads of 9 bytes or more, the window at
/// offset 1 that tolerates one leading framing byte.
pub open spec fn decode_payload(raw: Seq<u8>) -> Option<DecodedInstruction> {
    if raw.len() < 8 {
        None
    } else {
        match decode_window(raw.subrange(0, 8), raw.subrange(8, raw.len() as int)) {
            Some(d) => Some(d),
            None => if raw.len() >= 9 {
                decode_window(raw.subrange(1, 9), raw.subrange(9, raw.len() as int))
            } else {
                None
            },
        }
    }
}

/// The bytes that base-58 text decodes to, or `None` when it is not
/// base-58.
pub uninterp spec fn base58_decoded(s: Seq<char>) -> Option<Seq<u8>>;

/// What base-58 instruction data decodes to.
pub open spec fn decode_data(s: Seq<char>) -> Option<DecodedInstruction> {
    match base58_decoded(s) {
        Some(raw) => decode_payload(raw),
        None => None,
    }
}

/// Relies on bs58::decode(..).into_vec() with the default alphabet: the
/// decoded bytes, or an error, as a function of the text alone.
#[verifier::external_body]
fn base58_decode(s: &str) -> (r: Option<Vec<u8>>)
    ensures
        base58_decoded(s@) == match r {
            Some(v) => Some(v@),
            None => None::<Seq<u8>>,
        },
{
    bs58::decode(s).into_vec().ok()
}

/// Relies on borsh's `try_from_slice` for `(u64, u64)`: each integer is read
/// from 8 bytes with `from_le_bytes`, a short input fails, and so does one
/// with bytes left over.
#[verifier::external_body]
fn read_u64_pair(bytes: &[u8]) -> (r: Option<(u64, u64)>)
    ensures
        r == if bytes@.len() == 16 {
            Some(
                (
                    le_value(bytes@.subrange(0, 8)) as u64,
                    le_value(bytes@.subrange(8, 16)) as u64,
                ),
            )
        } else {
            None::<(u64, u64)>
        },
{
    <(u64, u64) as BorshDeserialize>::try_from_slice(bytes).ok()
}

/// Whether `window` holds exactly the eight bytes of `opcode`.
fn is_opcode(window: &[u8], opcode: &[u8; 8]) -> (r: bool)
    ensures
        r == (window@ == opcode@),
{
    if window.len() != 8 {
        return false;
    }
    let mut i: usize = 0;
    while i < 8
        invariant
            window@.len() == 8,
            forall|k: int| 0 <= k < i ==> window@[k] == opcode@[k],
        decreases 8 - i,
    {
        if window[i] != opcode[i] {
            return false;
        }
        i = i + 1;
    }
    assert(window@ =~= opcode@);
    true
}

/// Decodes a discriminator window and the argument bytes that follow it.
pub fn try_decode(disc: &[u8], payload: &[u8]) -> (r: Option<DecodedInstruction>)
    ensures
        r == decode_window(disc@, payload@),
{
    assert(BUY_DISCRIMINATOR@ =~= buy_opcode());
    assert(SELL_DISCRIMINATOR@ =~= sell_opcode());
    if is_opcode(disc, &BUY_DISCRIMINATOR) {
        match read_u64_pair(payload) {
            Some((amount, max_sol_cost)) => Some(
                DecodedInstruction {
                    trade_type: TradeType::Buy,
                    token_amount_requested: amount,
                    sol_limit_specified: max_sol_cost,
                },
            ),
            None => None,
        }
    } else if is_opcode(disc, &SELL_DISCRIMINATOR) {
        match read_u64_pair(payload) {
            Some((amount, min_sol_output)) => Some(
                DecodedInstruction {
                    trade_type: TradeType::Sell,
                    token_amount_requested: amount,
                    sol_limit_specified: min_sol_output,
                },
            ),
            None => None,
        }
    } else {
        None
    }
}

/// Decodes a raw instruction payload, trying the discriminator at offset 0
/// and then at offset 1.
pub fn decode_instruction_bytes(raw: &[u8]) -> (r: Option<DecodedInstruction>)
    ensures
        r == decode_payload(raw@),
{
    let n = raw.len();
    if n < 8 {
        return None;
    }
    match try_decode(slice_subrange(raw, 0, 8), slice_subrange(raw, 8, n)) {
        Some(d) => Some(d),
        None => if n >= 9 {
            try_decode(slice_subrange(raw, 1, 9), slice_subrange(raw, 9, n))
        } else {
            None
        },
    }
}

/// Decodes base-58 instruction data; text that is not base-58 decodes to
/// nothing.
pub fn decode_instruction_data(data_b58: &str) -> (r: Option<DecodedInstruction>)
    ensures
        r == decode_data(data_b58@),
{
    match base58_decode(data_b58) {
        Some(raw) => decode_instruction_bytes(raw.as_slice()),
        None => None,
    }
}

} // verus!

verus! {

/// `256` to the power `n`.
pub open spec fn radix(n: nat) -> int
    decreases n,
{
    if n == 0 {
        1
    } else {
        256 * radix((n - 1) as nat)
    }
}

proof fn lemma_le_round_trip(x: nat, n: nat)
    requires
        x < radix(n),
    ensures
        le_bytes(x, n).len() == n,
        le_value(le_bytes(x, n)) == x,
    decreases n,
{
    if n > 0 {
        let q = x / 256;
        let r = x % 256;
        vstd::arithmetic::div_mod::lemma_fundamental_div_mod(x as int, 256);
        assert(0 <= r < 256);
        assert(q < radix((n - 1) as nat)) by (nonlinear_arith)
            requires
                x == 256 * q + r,
                0 <= r,
                x < 256 * radix((n - 1) as nat),
        ;
        lemma_le_round_trip(q as nat, (n - 1) as nat);
        let s = le_bytes(x, n);
        assert(s.drop_first() =~= le_bytes(q as nat, (n - 1) as nat));
    }
}

/// The payload of a trade instruction: the opcode, then the requested token
/// amount and the currency limit, each as 8 little-endian bytes.
pub open spec fn encode_payload(opcode: Seq<u8>, amount: u64, limit: u64) -> Seq<u8> {
    opcode + le_bytes(amount as nat, 8) + le_bytes(limit as nat, 8)
}

/// Decoding inverts encoding: a buy or sell payload, bare or behind one
/// leading framing byte, decodes to exactly its direction, requested amount
/// and limit.
pub proof fn lemma_decode_round_trip(buy: bool, amount: u64, limit: u64, lead: u8)
    ensures
        ({
            let opcode = if buy { buy_opcode() } else { sell_opcode() };
            let expected = DecodedInstruction {
                trade_type: if buy { TradeType::Buy } else { TradeType::Sell },
                token_amount_requested: amount,
                sol_limit_specified: limit,
            };
            &&& decode_payload(encode_payload(opcode, amount, limit)) == Some(expected)
            &&& decode_payload(seq![lead] + encode_payload(opcode, amount, limit)) == Some(
                expected,
            )
        }),
{
    reveal_with_fuel(radix, 9);
    assert(radix(8) == 0x1_0000_0000_0000_0000);
    lemma_le_round_trip(amount as nat, 8);
    lemma_le_round_trip(limit as nat, 8);
    let opcode = if buy { buy_opcode() } else { sell_opcode() };
    let a = le_bytes(amount as nat, 8);
    let l = le_bytes(limit as nat, 8);
    let raw = encode_payload(opcode, amount, limit);
    let args = a + l;
    assert(raw.subrange(0, 8) =~= opcode);
    assert(raw.subrange(8, raw.len() as int) =~= args);
    assert(args.subrange(0, 8) =~= a);
    assert(args.subrange(8, 16) =~= l);
    assert(buy_opcode() != sell_opcode()) by {
        assert(buy_opcode()[0] != sell_opcode()[0]);
    }
    let framed = seq![lead] + raw;
    assert(framed.subrange(1, 9) =~= opcode);
    assert(framed.subrange(9, framed.len() as int) =~= args);
    assert(framed.subrange(8, framed.len() as int).len() == 17);
}

/// A payload shorter than 8 bytes, or one whose windows at offset 0 and at
/// offset 1 both hold no known opcode, decodes to nothing.
pub proof fn lemma_decode_rejects(raw: Seq<u8>)
    requires
        raw.len() < 8 || (raw.subrange(0, 8) != buy_opcode() && raw.subrange(0, 8) != sell_opcode()
            && (raw.len() < 9 || (raw.subrange(1, 9) != buy_opcode() && raw.subrange(1, 9)
            != sell_opcode()))),
    ensures
        decode_payload(raw).is_none(),
{
}

} // verus!
