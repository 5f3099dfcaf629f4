//! The attack detector: for every trade that executed worse than its limits,
//! the trades of frequent signers that bracket it within a window of block
//! heights, and whether together they look like a profitable sandwich.
use vstd::prelude::*;
use crate::numeric::{
    clamp_i64, negative_amount, negative_part, positive_amount, positive_part, magnitude,
    saturating_add_i64,
};
use crate::trade::{after, before, occurs_after, occurs_before, ParsedTransaction, TradeType};

verus! {

/// A victim with the front-run and back-run legs around it, and what those
/// legs gained together.
#[derive(Debug, Clone)]
pub struct SandwichDetection {
    pub victim: ParsedTransaction,
    pub frontruns: Vec<ParsedTransaction>,
    pub backruns: Vec<ParsedTransaction>,
    pub net_profit_sol: i64,
    pub net_token_delta: i64,
}

/// A victim with the front-run legs before it.
#[derive(Debug, Clone)]
pub struct FrontRunEvent {
    pub victim: ParsedTransaction,
    pub frontruns: Vec<ParsedTransaction>,
}

/// A victim with the back-run legs after it.
#[derive(Debug, Clone)]
pub struct BackRunEvent {
    pub victim: ParsedTransaction,
    pub backruns: Vec<ParsedTransaction>,
}

/// Everything one detection run found, in the order victims were examined.
#[derive(Debug, Clone)]
pub struct DetectionSummary {
    pub front_runs: Vec<FrontRunEvent>,
    pub back_runs: Vec<BackRunEvent>,
    pub sandwiches: Vec<SandwichDetection>,
}

impl Default for DetectionSummary {
    fn default() -> (r: DetectionSummary)
        ensures
            r.front_runs@.len() == 0,
            r.back_runs@.len() == 0,
            r.sandwiches@.len() == 0,
    {
        DetectionSummary { front_runs: Vec::new(), back_runs: Vec::new(), sandwiches: Vec::new() }
    }
}

/// The detector's tunables. Currency amounts are in lamports.
#[derive(Debug, Clone, Copy)]
pub struct DetectorConfig {
    /// How many block heights to search on either side of a victim.
    pub max_slot_gap: u64,
    /// A victim must move at least this much currency ...
    pub min_victim_abs_lamports: u64,
    /// ... or at least this many token units.
    pub min_victim_abs_token: u64,
    /// The least combined currency gain of the legs that makes a sandwich.
    pub min_profit_lamports: i64,
    /// The least number of trades in the batch that makes a signer a bot.
    pub min_bot_trades: usize,
}

impl Default for DetectorConfig {
    fn default() -> (r: DetectorConfig)
        ensures
            r.max_slot_gap == 3,
            r.min_victim_abs_lamports == 10_000_000,
            r.min_victim_abs_token == 100_000_000,
            r.min_profit_lamports == 10_000,
            r.min_bot_trades == 2,
    {
        DetectorConfig {
            max_slot_gap: 3,
            min_victim_abs_lamports: 10_000_000,
            min_victim_abs_token: 100_000_000,
            min_profit_lamports: 10_000,
            min_bot_trades: 2,
        }
    }
}

/// How a trade's execution compares with its limits.
#[derive(Debug, Clone, Copy)]
pub struct ExecutionBreach {
    /// More currency spent, or less received, than the limit allowed.
    pub price_limit: bool,
    /// Fewer tokens received, or more given up, than requested.
    pub amount_limit: bool,
}

impl ExecutionBreach {
    /// Whether either limit was breached.
    pub fn any(self) -> (r: bool)
        ensures
            r == (self.price_limit || self.amount_limit),
    {
        self.price_limit || self.amount_limit
    }
}

/// A buy that spent more than its maximum cost or got fewer tokens than it
/// asked for, or a sell that got less than its minimum proceeds or gave up
/// more tokens than it offered.
pub open spec fn price_breached(t: ParsedTransaction) -> bool {
    match t.trade_type {
        TradeType::Buy => negative_part(t.sol_change as int) > t.sol_limit_specified,
        TradeType::Sell => positive_part(t.sol_change as int) < t.sol_limit_specified,
    }
}

/// See `price_breached`.
pub open spec fn amount_breached(t: ParsedTransaction) -> bool {
    match t.trade_type {
        TradeType::Buy => positive_part(t.token_change as int) < t.token_amount_requested,
        TradeType::Sell => negative_part(t.token_change as int) > t.token_amount_requested,
    }
}

/// The absolute value of `x`.
pub open spec fn abs(x: int) -> int {
    if x < 0 { -x } else { x }
}

/// A trade that breached a limit and is large enough to look at.
pub open spec fn is_victim(t: ParsedTransaction, cfg: DetectorConfig) -> bool {
    &&& price_breached(t) || amount_breached(t)
    &&& abs(t.sol_change as int) >= cfg.min_victim_abs_lamports || abs(t.token_change as int)
        >= cfg.min_victim_abs_token
}

/// The number of trades of `s` whose signer is `signer`.
pub open spec fn signer_count(s: Seq<ParsedTransaction>, signer: Seq<char>) -> nat
    decreases s.len(),
{
    if s.len() == 0 {
        0
    } else {
        signer_count(s.drop_last(), signer) + if s.last().signer@ == signer {
            1nat
        } else {
            0nat
        }
    }
}

/// A signer that trades at least `min_bot_trades` times in the batch.
pub open spec fn is_bot(s: Seq<ParsedTransaction>, cfg: DetectorConfig, signer: Seq<char>) -> bool {
    signer_count(s, signer) >= cfg.min_bot_trades
}

/// `c` is a front-run leg of the victim `v`: a bot's trade on the same token,
/// in the same direction, executed before `v` and at most `max_slot_gap`
/// heights below it.
pub open spec fn front_leg(
    s: Seq<ParsedTransaction>,
    cfg: DetectorConfig,
    v: ParsedTransaction,
    c: ParsedTransaction,
) -> bool {
    &&& c.slot + cfg.max_slot_gap >= v.slot
    &&& c.signature@ != v.signature@
    &&& c.mint@ == v.mint@
    &&& is_bot(s, cfg, c.signer@)
    &&& before(c, v)
    &&& c.trade_type == v.trade_type
}

/// `c` is a back-run leg of the victim `v`: a bot's trade on the same token,
/// in the other direction, executed after `v` and at most `max_slot_gap`
/// heights above it.
pub open spec fn back_leg(
    s: Seq<ParsedTransaction>,
    cfg: DetectorConfig,
    v: ParsedTransaction,
    c: ParsedTransaction,
) -> bool {
    &&& c.slot <= v.slot + cfg.max_slot_gap
    &&& c.signature@ != v.signature@
    &&& c.mint@ == v.mint@
    &&& is_bot(s, cfg, c.signer@)
    &&& after(c, v)
    &&& c.trade_type != v.trade_type
}

/// How many of the trades at the positions `o` lie at a height of at most
/// `slot`.
pub open spec fn count_at_most(s: Seq<ParsedTransaction>, o: Seq<usize>, slot: u64) -> nat
    decreases o.len(),
{
    if o.len() == 0 {
        0
    } else {
        count_at_most(s, o.drop_last(), slot) + if s[o.last() as int].slot <= slot {
            1nat
        } else {
            0nat
        }
    }
}

/// The positions of the first `k` trades, stably sorted by height: each is
/// inserted after every earlier one at its height or below.
pub open spec fn order_prefix(s: Seq<ParsedTransaction>, k: nat) -> Seq<usize>
    decreases k,
{
    if k == 0 {
        Seq::empty()
    } else {
        let o = order_prefix(s, (k - 1) as nat);
        o.insert(count_at_most(s, o, s[k - 1].slot) as int, (k - 1) as usize)
    }
}

/// The batch in examination order: ascending height, and the batch's own
/// order within a height.
pub open spec fn examined(s: Seq<ParsedTransaction>) -> Seq<ParsedTransaction> {
    order_prefix(s, s.len()).map_values(|j: usize| s[j as int])
}

/// The front-run legs of `v`, in examination order.
pub open spec fn front_legs(s: Seq<ParsedTransaction>, cfg: DetectorConfig, v: ParsedTransaction) -> Seq<
    ParsedTransaction,
> {
    examined(s).filter(|c: ParsedTransaction| front_leg(s, cfg, v, c))
}

/// The back-run legs of `v`, in examination order.
pub open spec fn back_legs(s: Seq<ParsedTransaction>, cfg: DetectorConfig, v: ParsedTransaction) -> Seq<
    ParsedTransaction,
> {
    examined(s).filter(|c: ParsedTransaction| back_leg(s, cfg, v, c))
}

/// The currency changes of `legs` added up, saturating at each step.
pub open spec fn net_sol(legs: Seq<ParsedTransaction>) -> i64
    decreases legs.len(),
{
    if legs.len() == 0 {
        0
    } else {
        clamp_i64(net_sol(legs.drop_last()) + legs.last().sol_change)
    }
}

/// The token changes of `legs` added up, saturating at each step.
pub open spec fn net_tokens(legs: Seq<ParsedTransaction>) -> i64
    decreases legs.len(),
{
    if legs.len() == 0 {
        0
    } else {
        clamp_i64(net_tokens(legs.drop_last()) + legs.last().token_change)
    }
}

/// A victim with front-run legs.
pub open spec fn has_front_run(s: Seq<ParsedTransaction>, cfg: DetectorConfig, v: ParsedTransaction) -> bool {
    is_victim(v, cfg) && front_legs(s, cfg, v).len() > 0
}

/// A victim with back-run legs.
pub open spec fn has_back_run(s: Seq<ParsedTransaction>, cfg: DetectorConfig, v: ParsedTransaction) -> bool {
    is_victim(v, cfg) && back_legs(s, cfg, v).len() > 0
}

/// A victim with legs on both sides whose combined currency gain reaches
/// `min_profit_lamports`.
pub open spec fn is_sandwiched(s: Seq<ParsedTransaction>, cfg: DetectorConfig, v: ParsedTransaction) -> bool {
    &&& has_front_run(s, cfg, v)
    &&& has_back_run(s, cfg, v)
    &&& net_sol(front_legs(s, cfg, v) + back_legs(s, cfg, v)) >= cfg.min_profit_lamports
}

/// The victims of front-run events, in the order they are reported.
pub open spec fn front_run_victims(s: Seq<ParsedTransaction>, cfg: DetectorConfig) -> Seq<ParsedTransaction> {
    examined(s).filter(|v: ParsedTransaction| has_front_run(s, cfg, v))
}

/// The victims of back-run events, in the order they are reported.
pub open spec fn back_run_victims(s: Seq<ParsedTransaction>, cfg: DetectorConfig) -> Seq<ParsedTransaction> {
    examined(s).filter(|v: ParsedTransaction| has_back_run(s, cfg, v))
}

/// The victims of sandwiches, in the order they are reported.
pub open spec fn sandwich_victims(s: Seq<ParsedTransaction>, cfg: DetectorConfig) -> Seq<ParsedTransaction> {
    examined(s).filter(|v: ParsedTransaction| is_sandwiched(s, cfg, v))
}

/// `r` is what a detection run over `s` with `cfg` reports.
pub open spec fn reports(s: Seq<ParsedTransaction>, cfg: DetectorConfig, r: DetectionSummary) -> bool {
    let fv = front_run_victims(s, cfg);
    let bv = back_run_victims(s, cfg);
    let sv = sandwich_victims(s, cfg);
    &&& r.front_runs@.len() == fv.len()
    &&& forall|i: int|
        0 <= i < fv.len() ==> (#[trigger] r.front_runs@[i]).victim == fv[i]
            && r.front_runs@[i].frontruns@ == front_legs(s, cfg, fv[i])
    &&& r.back_runs@.len() == bv.len()
    &&& forall|i: int|
        0 <= i < bv.len() ==> (#[trigger] r.back_runs@[i]).victim == bv[i]
            && r.back_runs@[i].backruns@ == back_legs(s, cfg, bv[i])
    &&& r.sandwiches@.len() == sv.len()
    &&& forall|i: int|
        0 <= i < sv.len() ==> {
            let d = #[trigger] r.sandwiches@[i];
            let legs = front_legs(s, cfg, sv[i]) + back_legs(s, cfg, sv[i]);
            &&& d.victim == sv[i]
            &&& d.frontruns@ == front_legs(s, cfg, sv[i])
            &&& d.backruns@ == back_legs(s, cfg, sv[i])
            &&& d.net_profit_sol == net_sol(legs)
            &&& d.net_token_delta == net_tokens(legs)
        }
}

/// How `tx` executed against its declared limits.
pub fn analyze_execution(tx: &ParsedTransaction) -> (r: ExecutionBreach)
    ensures
        r.price_limit == price_breached(*tx),
        r.amount_limit == amount_breached(*tx),
{
    match tx.trade_type {
        TradeType::Buy => {
            let actual_spent = negative_amount(tx.sol_change);
            let tokens_received = positive_amount(tx.token_change);
            ExecutionBreach {
                price_limit: actual_spent > tx.sol_limit_specified,
                amount_limit: tokens_received < tx.token_amount_requested,
            }
        },
        TradeType::Sell => {
            let sol_received = positive_amount(tx.sol_change);
            let tokens_sold = negative_amount(tx.token_change);
            ExecutionBreach {
                price_limit: sol_received < tx.sol_limit_specified,
                amount_limit: tokens_sold > tx.token_amount_requested,
            }
        },
    }
}

/// Whether `tx` moved enough currency or tokens to be looked at.
pub fn magnitude_exceeds(tx: &ParsedTransaction, cfg: &DetectorConfig) -> (r: bool)
    ensures
        r == (abs(tx.sol_change as int) >= cfg.min_victim_abs_lamports || abs(
            tx.token_change as int,
        ) >= cfg.min_victim_abs_token),
{
    magnitude(tx.sol_change) >= cfg.min_victim_abs_lamports || magnitude(tx.token_change)
        >= cfg.min_victim_abs_token
}

/// Whether `front` executed before `victim` in the same direction.
pub fn is_frontrun_candidate(front: &ParsedTransaction, victim: &ParsedTransaction) -> (r: bool)
    ensures
        r == (before(*front, *victim) && front.trade_type == victim.trade_type),
{
    occurs_before(front, victim) && front.trade_type == victim.trade_type
}

/// Whether `back` executed after `victim` in the other direction.
pub fn is_backrun_candidate(back: &ParsedTransaction, victim: &ParsedTransaction) -> (r: bool)
    ensures
        r == (after(*back, *victim) && back.trade_type != victim.trade_type),
{
    occurs_after(back, victim) && back.trade_type != victim.trade_type
}

} // verus!

verus! {

proof fn lemma_filter_step<A>(s: Seq<A>, q: int, pred: spec_fn(A) -> bool)
    requires
        0 <= q < s.len(),
    ensures
        s.take(q + 1).filter(pred) == if pred(s[q]) {
            s.take(q).filter(pred).push(s[q])
        } else {
            s.take(q).filter(pred)
        },
{
    reveal(Seq::filter);
    assert(s.take(q + 1).drop_last() =~= s.take(q));
}

proof fn lemma_count_at_most_bound(s: Seq<ParsedTransaction>, o: Seq<usize>, slot: u64)
    ensures
        count_at_most(s, o, slot) <= o.len(),
    decreases o.len(),
{
    if o.len() > 0 {
        lemma_count_at_most_bound(s, o.drop_last(), slot);
    }
}

proof fn lemma_order_prefix_indices(s: Seq<ParsedTransaction>, k: nat)
    ensures
        order_prefix(s, k).len() == k,
        forall|i: int| 0 <= i < k ==> (#[trigger] order_prefix(s, k)[i]) < k,
    decreases k,
{
    if k > 0 {
        let o = order_prefix(s, (k - 1) as nat);
        lemma_order_prefix_indices(s, (k - 1) as nat);
        lemma_count_at_most_bound(s, o, s[k - 1].slot);
        let p = count_at_most(s, o, s[k - 1].slot) as int;
        assert forall|i: int| 0 <= i < k implies (#[trigger] order_prefix(s, k)[i]) < k by {
            if i < p {
                assert(order_prefix(s, k)[i] == o[i]);
            } else if i > p {
                assert(order_prefix(s, k)[i] == o[i - 1]);
            }
        }
    }
}

/// For each trade, whether its signer counts as a bot in the whole batch.
fn bot_flags(trades: &[ParsedTransaction], cfg: &DetectorConfig) -> (r: Vec<bool>)
    ensures
        r@.len() == trades@.len(),
        forall|i: int| 0 <= i < trades@.len() ==> r@[i] == is_bot(trades@, *cfg, trades@[i].signer@),
{
    let n = trades.len();
    let mut flags: Vec<bool> = Vec::new();
    let mut i: usize = 0;
    while i < n
        invariant
            n == trades@.len(),
            i <= n,
            flags@.len() == i,
            forall|k: int| 0 <= k < i ==> flags@[k] == is_bot(trades@, *cfg, trades@[k].signer@),
        decreases n - i,
    {
        let mut count: usize = 0;
        let mut j: usize = 0;
        while j < n
            invariant
                n == trades@.len(),
                i < n,
                j <= n,
                count == signer_count(trades@.take(j as int), trades@[i as int].signer@),
                count <= j,
            decreases n - j,
        {
            assert(trades@.take(j + 1).drop_last() =~= trades@.take(j as int));
            if trades[j].signer == trades[i].signer {
                count = count + 1;
            }
            j = j + 1;
        }
        assert(trades@.take(n as int) =~= trades@);
        flags.push(count >= cfg.min_bot_trades);
        i = i + 1;
    }
    flags
}

/// The positions of the trades in examination order.
fn examination_order(trades: &[ParsedTransaction]) -> (r: Vec<usize>)
    ensures
        r@ == order_prefix(trades@, trades@.len()),
{
    let n = trades.len();
    let mut order: Vec<usize> = Vec::new();
    let mut k: usize = 0;
    while k < n
        invariant
            n == trades@.len(),
            k <= n,
            order@ == order_prefix(trades@, k as nat),
        decreases n - k,
    {
        proof {
            lemma_order_prefix_indices(trades@, k as nat);
        }
        let slot = trades[k].slot;
        let mut p: usize = 0;
        let mut q: usize = 0;
        while q < order.len()
            invariant
                n == trades@.len(),
                k < n,
                order@ == order_prefix(trades@, k as nat),
                forall|i: int| 0 <= i < order@.len() ==> #[trigger] order@[i] < k,
                q <= order@.len(),
                p <= q,
                p == count_at_most(trades@, order@.take(q as int), slot),
            decreases order.len() - q,
        {
            assert(order@.take(q + 1).drop_last() =~= order@.take(q as int));
            if trades[order[q]].slot <= slot {
                p = p + 1;
            }
            q = q + 1;
        }
        assert(order@.take(order@.len() as int) =~= order@);
        order.insert(p, k);
        k = k + 1;
    }
    order
}

/// A copy of a list of trades.
fn copy_trades(v: &Vec<ParsedTransaction>) -> (r: Vec<ParsedTransaction>)
    ensures
        r@ == v@,
{
    let mut out: Vec<ParsedTransaction> = Vec::new();
    let mut i: usize = 0;
    while i < v.len()
        invariant
            i <= v@.len(),
            out@ == v@.take(i as int),
        decreases v.len() - i,
    {
        out.push(v[i].duplicate());
        assert(out@ =~= v@.take(i + 1));
        i = i + 1;
    }
    assert(v@.take(v@.len() as int) =~= v@);
    out
}

/// The legs of the victim `v` on one side: the front-run legs where `front`
/// holds, else the back-run legs.
fn collect_legs(
    trades: &[ParsedTransaction],
    order: &Vec<usize>,
    bots: &Vec<bool>,
    cfg: &DetectorConfig,
    v: &ParsedTransaction,
    front: bool,
) -> (r: Vec<ParsedTransaction>)
    requires
        order@ == order_prefix(trades@, trades@.len()),
        bots@.len() == trades@.len(),
        forall|i: int| 0 <= i < trades@.len() ==> bots@[i] == is_bot(trades@, *cfg, trades@[i].signer@),
    ensures
        front ==> r@ == front_legs(trades@, *cfg, *v),
        !front ==> r@ == back_legs(trades@, *cfg, *v),
{
    let ghost s = trades@;
    let ghost pred = if front {
        |c: ParsedTransaction| front_leg(s, *cfg, *v, c)
    } else {
        |c: ParsedTransaction| back_leg(s, *cfg, *v, c)
    };
    proof {
        lemma_order_prefix_indices(s, s.len());
    }
    let n = trades.len();
    let mut legs: Vec<ParsedTransaction> = Vec::new();
    let mut q: usize = 0;
    while q < n
        invariant
            s == trades@,
            n == s.len(),
            order@ == order_prefix(s, s.len()),
            order@.len() == n,
            forall|i: int| 0 <= i < n ==> #[trigger] order@[i] < n,
            bots@.len() == n,
            forall|i: int| 0 <= i < n ==> bots@[i] == is_bot(s, *cfg, s[i].signer@),
            q <= n,
            legs@ == examined(s).take(q as int).filter(pred),
            pred == if front {
                |c: ParsedTransaction| front_leg(s, *cfg, *v, c)
            } else {
                |c: ParsedTransaction| back_leg(s, *cfg, *v, c)
            },
        decreases n - q,
    {
        let j = order[q];
        let c = &trades[j];
        proof {
            lemma_filter_step(examined(s), q as int, pred);
            assert(examined(s)[q as int] == *c);
        }
        let keep = if front {
            c.slot as u128 + cfg.max_slot_gap as u128 >= v.slot as u128 && !(c.signature
                == v.signature) && c.mint == v.mint && bots[j] && is_frontrun_candidate(c, v)
        } else {
            c.slot as u128 <= v.slot as u128 + cfg.max_slot_gap as u128 && !(c.signature
                == v.signature) && c.mint == v.mint && bots[j] && is_backrun_candidate(c, v)
        };
        if keep {
            legs.push(c.duplicate());
        }
        q = q + 1;
    }
    assert(examined(s).take(n as int) =~= examined(s));
    legs
}

} // verus!

verus! {

/// The combined currency and token changes of the front-run legs followed
/// by the back-run legs, each added up with saturation.
fn leg_totals(front: &Vec<ParsedTransaction>, back: &Vec<ParsedTransaction>) -> (r: (i64, i64))
    ensures
        r.0 == net_sol(front@ + back@),
        r.1 == net_tokens(front@ + back@),
{
    let ghost all = front@ + back@;
    let mut sol: i64 = 0;
    let mut tokens: i64 = 0;
    let mut i: usize = 0;
    while i < front.len()
        invariant
            all == front@ + back@,
            i <= front@.len(),
            sol == net_sol(all.take(i as int)),
            tokens == net_tokens(all.take(i as int)),
        decreases front.len() - i,
    {
        assert(all.take(i + 1).drop_last() =~= all.take(i as int));
        assert(all[i as int] == front@[i as int]);
        sol = saturating_add_i64(sol, front[i].sol_change);
        tokens = saturating_add_i64(tokens, front[i].token_change);
        i = i + 1;
    }
    let mut j: usize = 0;
    while j < back.len()
        invariant
            all == front@ + back@,
            j <= back@.len(),
            sol == net_sol(all.take(front@.len() + j as int)),
            tokens == net_tokens(all.take(front@.len() + j as int)),
        decreases back.len() - j,
    {
        assert(all.take(front@.len() + j + 1 as int).drop_last() =~= all.take(front@.len() + j as int));
        assert(all[front@.len() + j] == back@[j as int]);
        sol = saturating_add_i64(sol, back[j].sol_change);
        tokens = saturating_add_i64(tokens, back[j].token_change);
        j = j + 1;
    }
    assert(all.take(all.len() as int) =~= all);
    (sol, tokens)
}

/// Finds front-run, back-run and sandwich patterns in a batch of trades.
///
/// Every trade that breached a limit and is large enough is examined as a
/// victim, in ascending height and, within a height, in batch order. Its
/// front-run and back-run legs are the trades of bot signers (those with at
/// least `min_bot_trades` trades in the batch) that match it within
/// `max_slot_gap` heights; a victim with legs on both sides whose combined
/// currency gain reaches `min_profit_lamports` is a sandwich.
pub fn detect_wide_attacks(trades: &[ParsedTransaction], cfg: &DetectorConfig) -> (r: DetectionSummary)
    ensures
        reports(trades@, *cfg, r),
{
    let ghost s = trades@;
    let bots = bot_flags(trades, cfg);
    let order = examination_order(trades);
    proof {
        lemma_order_prefix_indices(s, s.len());
    }
    let ghost ex = examined(s);
    let ghost pf = |v: ParsedTransaction| has_front_run(s, *cfg, v);
    let ghost pb = |v: ParsedTransaction| has_back_run(s, *cfg, v);
    let ghost ps = |v: ParsedTransaction| is_sandwiched(s, *cfg, v);
    let mut summary = DetectionSummary::default();
    let n = trades.len();
    let mut q: usize = 0;
    while q < n
        invariant
            s == trades@,
            n == s.len(),
            ex == examined(s),
            order@ == order_prefix(s, s.len()),
            order@.len() == n,
            forall|i: int| 0 <= i < n ==> #[trigger] order@[i] < n,
            bots@.len() == n,
            forall|i: int| 0 <= i < n ==> bots@[i] == is_bot(s, *cfg, s[i].signer@),
            q <= n,
            pf == (|v: ParsedTransaction| has_front_run(s, *cfg, v)),
            pb == (|v: ParsedTransaction| has_back_run(s, *cfg, v)),
            ps == (|v: ParsedTransaction| is_sandwiched(s, *cfg, v)),
            ({
                let fv = ex.take(q as int).filter(pf);
                &&& summary.front_runs@.len() == fv.len()
                &&& forall|i: int|
                    0 <= i < fv.len() ==> (#[trigger] summary.front_runs@[i]).victim == fv[i]
                        && summary.front_runs@[i].frontruns@ == front_legs(s, *cfg, fv[i])
            }),
            ({
                let bv = ex.take(q as int).filter(pb);
                &&& summary.back_runs@.len() == bv.len()
                &&& forall|i: int|
                    0 <= i < bv.len() ==> (#[trigger] summary.back_runs@[i]).victim == bv[i]
                        && summary.back_runs@[i].backruns@ == back_legs(s, *cfg, bv[i])
            }),
            ({
                let sv = ex.take(q as int).filter(ps);
                &&& summary.sandwiches@.len() == sv.len()
                &&& forall|i: int|
                    0 <= i < sv.len() ==> {
                        let d = #[trigger] summary.sandwiches@[i];
                        let legs = front_legs(s, *cfg, sv[i]) + back_legs(s, *cfg, sv[i]);
                        &&& d.victim == sv[i]
                        &&& d.frontruns@ == front_legs(s, *cfg, sv[i])
                        &&& d.backruns@ == back_legs(s, *cfg, sv[i])
                        &&& d.net_profit_sol == net_sol(legs)
                        &&& d.net_token_delta == net_tokens(legs)
                    }
            }),
        decreases n - q,
    {
        let victim = &trades[order[q]];
        proof {
            assert(ex[q as int] == *victim);
            lemma_filter_step(ex, q as int, pf);
            lemma_filter_step(ex, q as int, pb);
            lemma_filter_step(ex, q as int, ps);
        }
        let candidate = analyze_execution(victim).any() && magnitude_exceeds(victim, cfg);
        if candidate {
            let frontruns = collect_legs(trades, &order, &bots, cfg, victim, true);
            if frontruns.len() > 0 {
                summary.front_runs.push(
                    FrontRunEvent { victim: victim.duplicate(), frontruns: copy_trades(&frontruns) },
                );
            }
            let backruns = collect_legs(trades, &order, &bots, cfg, victim, false);
            if backruns.len() > 0 {
                summary.back_runs.push(
                    BackRunEvent { victim: victim.duplicate(), backruns: copy_trades(&backruns) },
                );
            }
            let (net_sol_v, net_tokens_v) = leg_totals(&frontruns, &backruns);
            if frontruns.len() > 0 && backruns.len() > 0 && net_sol_v >= cfg.min_profit_lamports {
                summary.sandwiches.push(
                    SandwichDetection {
                        victim: victim.duplicate(),
                        frontruns,
                        backruns,
                        net_profit_sol: net_sol_v,
                        net_token_delta: net_tokens_v,
                    },
                );
            }
        }
        q = q + 1;
    }
    assert(ex.take(n as int) =~= ex);
    summary
}

} // verus!

verus! {

/// A trade that executed exactly as declared: a buy that spent its maximum
/// cost and received the requested tokens, or a sell that received its
/// minimum proceeds and gave up the offered tokens.
pub open spec fn fair_execution(t: ParsedTransaction) -> bool {
    match t.trade_type {
        TradeType::Buy => t.sol_change == -(t.sol_limit_specified as int) && t.token_change
            == t.token_amount_requested,
        TradeType::Sell => t.sol_change == t.sol_limit_specified && t.token_change == -(
        t.token_amount_requested as int),
    }
}

/// A fairly executed trade is never reported as a victim, whatever trades
/// surround it.
pub proof fn lemma_fair_trade_never_victim(
    s: Seq<ParsedTransaction>,
    cfg: DetectorConfig,
    t: ParsedTransaction,
)
    requires
        fair_execution(t),
    ensures
        !front_run_victims(s, cfg).contains(t),
        !back_run_victims(s, cfg).contains(t),
        !sandwich_victims(s, cfg).contains(t),
{
    let ex = examined(s);
    if front_run_victims(s, cfg).contains(t) {
        let i = choose|i: int| 0 <= i < front_run_victims(s, cfg).len() && front_run_victims(s, cfg)[i] == t;
        ex.lemma_filter_pred(|v: ParsedTransaction| has_front_run(s, cfg, v), i);
    }
    if back_run_victims(s, cfg).contains(t) {
        let i = choose|i: int| 0 <= i < back_run_victims(s, cfg).len() && back_run_victims(s, cfg)[i] == t;
        ex.lemma_filter_pred(|v: ParsedTransaction| has_back_run(s, cfg, v), i);
    }
    if sandwich_victims(s, cfg).contains(t) {
        let i = choose|i: int| 0 <= i < sandwich_victims(s, cfg).len() && sandwich_victims(s, cfg)[i] == t;
        ex.lemma_filter_pred(|v: ParsedTransaction| is_sandwiched(s, cfg, v), i);
    }
}

/// Where a bot needs at least two trades, a trade whose signer trades only
/// once in the batch is never a front-run or back-run leg of any victim.
pub proof fn lemma_single_trade_signer_never_leg(
    s: Seq<ParsedTransaction>,
    cfg: DetectorConfig,
    v: ParsedTransaction,
    c: ParsedTransaction,
)
    requires
        cfg.min_bot_trades >= 2,
        signer_count(s, c.signer@) == 1,
    ensures
        !front_legs(s, cfg, v).contains(c),
        !back_legs(s, cfg, v).contains(c),
{
    let ex = examined(s);
    if front_legs(s, cfg, v).contains(c) {
        let i = choose|i: int| 0 <= i < front_legs(s, cfg, v).len() && front_legs(s, cfg, v)[i] == c;
        ex.lemma_filter_pred(|x: ParsedTransaction| front_leg(s, cfg, v, x), i);
    }
    if back_legs(s, cfg, v).contains(c) {
        let i = choose|i: int| 0 <= i < back_legs(s, cfg, v).len() && back_legs(s, cfg, v)[i] == c;
        ex.lemma_filter_pred(|x: ParsedTransaction| back_leg(s, cfg, v, x), i);
    }
}

/// With one front-run leg gaining `X` and one back-run leg gaining `Y`, a
/// victim is a sandwich exactly when `X + Y` reaches `min_profit_lamports`.
/// (The sum saturates at `i64::MIN`, so a threshold of `i64::MIN` admits
/// every sum, also one below it.)
pub proof fn lemma_sandwich_profit_gate(
    s: Seq<ParsedTransaction>,
    cfg: DetectorConfig,
    v: ParsedTransaction,
    f: ParsedTransaction,
    b: ParsedTransaction,
)
    requires
        is_victim(v, cfg),
        front_legs(s, cfg, v) == seq![f],
        back_legs(s, cfg, v) == seq![b],
        !(cfg.min_profit_lamports == i64::MIN && f.sol_change + b.sol_change < i64::MIN),
    ensures
        is_sandwiched(s, cfg, v) <==> f.sol_change + b.sol_change >= cfg.min_profit_lamports,
{
    let legs = seq![f] + seq![b];
    assert(legs.drop_last() =~= seq![f]);
    assert(seq![f].drop_last() =~= Seq::<ParsedTransaction>::empty());
    assert(seq![f].last() == f);
    assert(legs.last() == b);
    assert(net_sol(Seq::<ParsedTransaction>::empty()) == 0);
    assert(net_sol(seq![f]) == clamp_i64(0 + f.sol_change));
    assert(net_sol(seq![f]) == f.sol_change);
    assert(net_sol(legs) == clamp_i64(f.sol_change + b.sol_change));
    assert(front_legs(s, cfg, v) + back_legs(s, cfg, v) == legs);
}

} // verus!

verus! {

/// Position `a` comes before position `b` in examination order: a lower
/// height, or the same height and an earlier place in the batch.
pub open spec fn examined_before(s: Seq<ParsedTransaction>, a: usize, b: usize) -> bool {
    s[a as int].slot < s[b as int].slot || (s[a as int].slot == s[b as int].slot && a < b)
}

/// `o` lists positions in strictly increasing examination order.
pub open spec fn sorted_positions(s: Seq<ParsedTransaction>, o: Seq<usize>) -> bool {
    forall|i: int, j: int| 0 <= i < j < o.len() ==> examined_before(s, #[trigger] o[i], #[trigger] o[j])
}

proof fn lemma_count_splits(s: Seq<ParsedTransaction>, o: Seq<usize>, x: u64)
    requires
        sorted_positions(s, o),
    ensures
        forall|i: int| 0 <= i < count_at_most(s, o, x) ==> s[#[trigger] o[i] as int].slot <= x,
        forall|i: int| count_at_most(s, o, x) <= i < o.len() ==> s[#[trigger] o[i] as int].slot > x,
    decreases o.len(),
{
    lemma_count_at_most_bound(s, o, x);
    if o.len() > 0 {
        let d = o.drop_last();
        assert(sorted_positions(s, d)) by {
            assert forall|i: int, j: int| 0 <= i < j < d.len() implies examined_before(
                s,
                #[trigger] d[i],
                #[trigger] d[j],
            ) by {
                assert(d[i] == o[i] && d[j] == o[j]);
            }
        }
        lemma_count_splits(s, d, x);
        lemma_count_at_most_bound(s, d, x);
        let last = o.len() - 1;
        if s[o[last] as int].slot <= x {
            assert forall|i: int| 0 <= i < count_at_most(s, o, x) implies s[#[trigger] o[i] as int].slot <= x by {
                if i < last {
                    assert(examined_before(s, o[i], o[last]));
                }
            }
            if count_at_most(s, d, x) < d.len() {
                let k = count_at_most(s, d, x) as int;
                assert(s[d[k] as int].slot > x);
                assert(examined_before(s, o[k], o[last]));
            }
        } else {
            assert forall|i: int| 0 <= i < count_at_most(s, o, x) implies s[#[trigger] o[i] as int].slot <= x by {
                assert(d[i] == o[i]);
            }
            assert forall|i: int| count_at_most(s, o, x) <= i < o.len() implies s[#[trigger] o[i] as int].slot > x by {
                if i < last {
                    assert(d[i] == o[i]);
                }
            }
        }
    }
}

/// The examination order is the stable sort of the batch by height: it
/// lists every position exactly once, a lower height first and, at one
/// height, the batch's own order.
pub proof fn lemma_examination_order(s: Seq<ParsedTransaction>, k: nat)
    requires
        k <= s.len(),
        s.len() <= usize::MAX,
    ensures
        order_prefix(s, k).len() == k,
        forall|i: int| 0 <= i < k ==> (#[trigger] order_prefix(s, k)[i]) < k,
        sorted_positions(s, order_prefix(s, k)),
    decreases k,
{
    lemma_order_prefix_indices(s, k);
    if k > 0 {
        let o = order_prefix(s, (k - 1) as nat);
        lemma_examination_order(s, (k - 1) as nat);
        let x = s[k - 1].slot;
        let p = count_at_most(s, o, x) as int;
        lemma_count_splits(s, o, x);
        lemma_count_at_most_bound(s, o, x);
        let n = order_prefix(s, k);
        let m = (k - 1) as usize;
        assert(n == o.insert(p, m));
        assert forall|i: int, j: int| 0 <= i < j < n.len() implies examined_before(
            s,
            #[trigger] n[i],
            #[trigger] n[j],
        ) by {
            if j < p {
                assert(n[i] == o[i] && n[j] == o[j]);
            } else if j == p {
                assert(n[i] == o[i] && n[j] == m);
            } else if i < p {
                assert(n[i] == o[i] && n[j] == o[j - 1]);
            } else if i == p {
                assert(n[i] == m && n[j] == o[j - 1]);
            } else {
                assert(n[i] == o[i - 1] && n[j] == o[j - 1]);
            }
        }
    }
}

} // verus!
