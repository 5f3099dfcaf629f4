//! The bonding-curve market: constant-product pricing over virtual
//! reserves, a proportional fee, and a slippage limit that rejects a trade
//! without touching the reserves.
use vstd::prelude::*;

verus! {

/// Lamports in one unit of currency.
pub const LAMPORTS_PER_SOL: u64 = 1_000_000_000;

/// Raw token units in one whole token.
pub const TOKEN_DECIMALS: u64 = 1_000_000;

/// Virtual currency reserve of a freshly launched market.
pub const INITIAL_VIRTUAL_SOL: u64 = 30 * LAMPORTS_PER_SOL;

/// Virtual token reserve of a freshly launched market.
pub const INITIAL_VIRTUAL_TOKEN: u64 = 1_073_000_000 * TOKEN_DECIMALS;

/// Real currency reserve of a freshly launched market.
pub const INITIAL_REAL_SOL: u64 = 0;

/// Real token reserve of a freshly launched market.
pub const INITIAL_REAL_TOKEN: u64 = 793_100_000 * TOKEN_DECIMALS;

/// The trading fee, in basis points.
pub const FEE_BPS: u64 = 30;

/// The reserves of a bonding-curve market.
#[derive(Debug, Clone, Copy, PartialEq, Eq, Structural)]
pub struct PumpAmmState {
    pub virtual_sol: u64,
    pub virtual_token: u64,
    pub real_sol: u64,
    pub real_token: u64,
}

/// The fee on an input of `x`: `FEE_BPS` basis points, rounded down, and at
/// least one unit.
pub open spec fn fee(x: u64) -> int {
    let f = x as int * 30 / 10_000;
    if f < 1 { 1 } else { f }
}

/// What is left of an input of `x` once the fee is taken, never below zero.
pub open spec fn after_fee(x: u64) -> int {
    if x as int >= fee(x) { x - fee(x) } else { 0 }
}

/// `x` capped at `u64::MAX`.
pub open spec fn cap(x: int) -> u64 {
    if x > u64::MAX as int { u64::MAX } else { x as u64 }
}

/// `x` floored at zero.
pub open spec fn floor0(x: int) -> u64 {
    if x < 0 { 0 } else { x as u64 }
}

/// The constant-product output of swapping `input` against the reserves
/// `input_reserve` and `output_reserve`: zero when the input reserve is
/// empty.
pub open spec fn swap_output(input: int, input_reserve: u64, output_reserve: u64) -> int {
    if input_reserve == 0 {
        0
    } else {
        input * output_reserve / (input_reserve + input)
    }
}

/// Tokens that a buy of `sol_in` returns: zero when it falls short of
/// `min_tokens_out`.
pub open spec fn buy_output(st: PumpAmmState, sol_in: u64, min_tokens_out: u64) -> int {
    let out = swap_output(after_fee(sol_in), st.virtual_sol, st.virtual_token);
    if out < min_tokens_out { 0 } else { out }
}

/// The reserves after a buy of `sol_in`: unchanged when it returns nothing.
pub open spec fn after_buy(st: PumpAmmState, sol_in: u64, min_tokens_out: u64) -> PumpAmmState {
    let out = buy_output(st, sol_in, min_tokens_out);
    if out > 0 {
        PumpAmmState {
            virtual_sol: cap(st.virtual_sol + after_fee(sol_in)),
            virtual_token: floor0(st.virtual_token - out),
            real_sol: cap(st.real_sol + sol_in),
            real_token: floor0(st.real_token - out),
        }
    } else {
        st
    }
}

/// Currency that a sell of `tokens_in` returns: zero when it falls short of
/// `min_sol_out`.
pub open spec fn sell_output(st: PumpAmmState, tokens_in: u64, min_sol_out: u64) -> int {
    let out = swap_output(after_fee(tokens_in), st.virtual_token, st.virtual_sol);
    if out < min_sol_out { 0 } else { out }
}

/// The reserves after a sell of `tokens_in`: unchanged when it returns
/// nothing.
pub open spec fn after_sell(st: PumpAmmState, tokens_in: u64, min_sol_out: u64) -> PumpAmmState {
    let out = sell_output(st, tokens_in, min_sol_out);
    if out > 0 {
        PumpAmmState {
            virtual_sol: floor0(st.virtual_sol - out),
            virtual_token: cap(st.virtual_token + after_fee(tokens_in)),
            real_sol: floor0(st.real_sol - out),
            real_token: cap(st.real_token + tokens_in),
        }
    } else {
        st
    }
}

proof fn lemma_swap_output_bounded(input: int, input_reserve: u64, output_reserve: u64)
    requires
        input >= 0,
    ensures
        0 <= swap_output(input, input_reserve, output_reserve) <= output_reserve,
{
    if input_reserve != 0 {
        let d = input_reserve + input;
        assert(input * output_reserve <= d * output_reserve) by (nonlinear_arith)
            requires
                0 <= input <= d,
                output_reserve >= 0,
        ;
        assert(0 <= input * output_reserve / d <= output_reserve) by (nonlinear_arith)
            requires
                0 <= input * output_reserve <= d * output_reserve,
                d > 0,
        ;
    }
}

/// The input after the fee, computed without overflow.
fn take_fee(x: u64) -> (r: u64)
    ensures
        r == after_fee(x),
{
    assert(x as int * 30 <= u64::MAX as int * 30) by (nonlinear_arith)
        requires
            x <= u64::MAX,
    ;
    let f = (x as u128 * FEE_BPS as u128 / 10_000) as u64;
    let f = if f < 1 { 1 } else { f };
    x.saturating_sub(f)
}

/// The constant-product output, computed in 128 bits.
fn swap(input: u64, input_reserve: u64, output_reserve: u64) -> (r: u64)
    ensures
        r == swap_output(input as int, input_reserve, output_reserve),
{
    proof {
        lemma_swap_output_bounded(input as int, input_reserve, output_reserve);
    }
    if input_reserve == 0 {
        0
    } else {
        assert(input as int * output_reserve as int <= u64::MAX as int * u64::MAX as int)
            by (nonlinear_arith)
            requires
                input <= u64::MAX,
                output_reserve <= u64::MAX,
        ;
        (input as u128 * output_reserve as u128 / (input_reserve as u128 + input as u128)) as u64
    }
}

impl PumpAmmState {
    /// A freshly launched market.
    pub fn new() -> (r: PumpAmmState)
        ensures
            r.virtual_sol == 30_000_000_000,
            r.virtual_token == 1_073_000_000_000_000,
            r.real_sol == 0,
            r.real_token == 793_100_000_000_000,
    {
        PumpAmmState {
            virtual_sol: INITIAL_VIRTUAL_SOL,
            virtual_token: INITIAL_VIRTUAL_TOKEN,
            real_sol: INITIAL_REAL_SOL,
            real_token: INITIAL_REAL_TOKEN,
        }
    }

    /// Buys with `sol_in` lamports; returns the tokens received and the
    /// lamports paid. A buy that would return fewer than `min_tokens_out`
    /// tokens returns none and leaves the reserves as they were.
    pub fn simulate_buy(&mut self, sol_in: u64, min_tokens_out: u64) -> (r: (u64, u64))
        ensures
            r.0 == buy_output(*old(self), sol_in, min_tokens_out),
            r.1 == sol_in,
            *final(self) == after_buy(*old(self), sol_in, min_tokens_out),
    {
        let sol_in_after_fee = take_fee(sol_in);
        let raw = swap(sol_in_after_fee, self.virtual_sol, self.virtual_token);
        let tokens_out = if raw < min_tokens_out {
            0
        } else {
            raw
        };
        if tokens_out > 0 {
            self.virtual_sol = self.virtual_sol.saturating_add(sol_in_after_fee);
            self.virtual_token = self.virtual_token.saturating_sub(tokens_out);
            self.real_sol = self.real_sol.saturating_add(sol_in);
            self.real_token = self.real_token.saturating_sub(tokens_out);
        }
        (tokens_out, sol_in)
    }

    /// Sells `tokens_in` tokens; returns the lamports received. A sell that
    /// would return fewer than `min_sol_out` lamports returns none and
    /// leaves the reserves as they were.
    pub fn simulate_sell(&mut self, tokens_in: u64, min_sol_out: u64) -> (r: u64)
        ensures
            r == sell_output(*old(self), tokens_in, min_sol_out),
            *final(self) == after_sell(*old(self), tokens_in, min_sol_out),
    {
        let tokens_in_after_fee = take_fee(tokens_in);
        let raw = swap(tokens_in_after_fee, self.virtual_token, self.virtual_sol);
        let sol_out = if raw < min_sol_out {
            0
        } else {
            raw
        };
        if sol_out > 0 {
            self.virtual_sol = self.virtual_sol.saturating_sub(sol_out);
            self.virtual_token = self.virtual_token.saturating_add(tokens_in_after_fee);
            self.real_sol = self.real_sol.saturating_sub(sol_out);
            self.real_token = self.real_token.saturating_add(tokens_in);
        }
        sol_out
    }
}

} // verus!

verus! {

proof fn lemma_fee_bounds(x: u64)
    ensures
        0 <= after_fee(x) <= x,
{
}

/// A buy that is accepted, followed by a sell of exactly the tokens it
/// bought with no proceeds limit, never returns more currency than the buy
/// put in after its fee, and so never more than the buy spent; the virtual
/// currency reserve ends no lower than it began, unless the buy saturated it.
pub proof fn lemma_round_trip_never_gains(st: PumpAmmState, sol_in: u64, min_tokens_out: u64)
    requires
        buy_output(st, sol_in, min_tokens_out) > 0,
    ensures
        ({
            let tokens = buy_output(st, sol_in, min_tokens_out) as u64;
            let mid = after_buy(st, sol_in, min_tokens_out);
            let back = sell_output(mid, tokens, 0);
            &&& back <= after_fee(sol_in) <= sol_in
            &&& st.virtual_sol + after_fee(sol_in) <= u64::MAX ==> after_sell(
                mid,
                tokens,
                0,
            ).virtual_sol >= st.virtual_sol
        }),
{
    let a = after_fee(sol_in);
    lemma_fee_bounds(sol_in);
    let vs = st.virtual_sol as int;
    let vt = st.virtual_token as int;
    lemma_swap_output_bounded(a, st.virtual_sol, st.virtual_token);
    let t = buy_output(st, sol_in, min_tokens_out);
    assert(vs > 0);
    assert(t == a * vt / (vs + a));
    // t (vs + a) <= a vt, by the definition of integer division
    assert(t * (vs + a) <= a * vt) by (nonlinear_arith)
        requires
            t == a * vt / (vs + a),
            vs + a > 0,
            a >= 0,
            vt >= 0,
    ;
    let mid = after_buy(st, sol_in, min_tokens_out);
    let tu = t as u64;
    lemma_fee_bounds(tu);
    let t2 = after_fee(tu);
    let vs1 = mid.virtual_sol as int;
    let vt1 = mid.virtual_token as int;
    assert(vt1 == vt - t);
    assert(vs1 <= vs + a);
    lemma_swap_output_bounded(t2, mid.virtual_token, mid.virtual_sol);
    let back = sell_output(mid, tu, 0);
    if vt1 != 0 {
        assert(back == t2 * vs1 / (vt1 + t2));
        assert(t2 * vs1 <= a * (vt1 + t2)) by (nonlinear_arith)
            requires
                0 <= t2 <= t,
                0 <= vs1 <= vs + a,
                vs >= 0,
                a >= 0,
                vt1 == vt - t,
                t * (vs + a) <= a * vt,
        ;
        assert(t2 * vs1 / (vt1 + t2) <= a) by (nonlinear_arith)
            requires
                t2 * vs1 <= a * (vt1 + t2),
                vt1 + t2 > 0,
                t2 * vs1 >= 0,
        ;
    }
}

} // verus!
