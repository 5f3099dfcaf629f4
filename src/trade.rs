//! The trade record shared by decoder and detector, and the total order
//! over trades: ascending block height, then the transaction id's bytes.
use vstd::prelude::*;
use vstd::utf8::encode_utf8;

verus! {

/// Direction of a trade on the bonding curve.
#[derive(Debug, Clone, Copy, PartialEq, Eq, Structural)]
pub enum TradeType {
    Buy,
    Sell,
}

/// One executed trade: what the signer asked for, and what the ledger's
/// balance snapshots show it got.
#[derive(Debug, Clone)]
pub struct ParsedTransaction {
    pub signature: String,
    pub slot: u64,
    pub signer: String,
    pub mint: String,
    pub trade_type: TradeType,
    pub token_amount_requested: u64,
    pub sol_limit_specified: u64,
    pub sol_change: i64,
    pub token_change: i64,
}

/// Lexicographic order on byte strings, a proper prefix sorting first.
pub open spec fn bytes_lt(a: Seq<u8>, b: Seq<u8>) -> bool
    decreases a.len(),
{
    if b.len() == 0 {
        false
    } else if a.len() == 0 {
        true
    } else if a[0] != b[0] {
        a[0] < b[0]
    } else {
        bytes_lt(a.drop_first(), b.drop_first())
    }
}

/// The bytes of a trade's transaction id, the tie-break key of the order.
pub open spec fn id_bytes(t: ParsedTransaction) -> Seq<u8> {
    encode_utf8(t.signature@)
}

/// `a` executed before `b`: at a lower height, or at the same height with a
/// smaller transaction id.
pub open spec fn before(a: ParsedTransaction, b: ParsedTransaction) -> bool {
    a.slot < b.slot || (a.slot == b.slot && bytes_lt(id_bytes(a), id_bytes(b)))
}

/// `a` executed after `b`.
pub open spec fn after(a: ParsedTransaction, b: ParsedTransaction) -> bool {
    a.slot > b.slot || (a.slot == b.slot && bytes_lt(id_bytes(b), id_bytes(a)))
}

impl ParsedTransaction {
    /// A field-by-field copy.
    pub fn duplicate(&self) -> (r: ParsedTransaction)
        ensures
            r == *self,
    {
        ParsedTransaction {
            signature: self.signature.clone(),
            slot: self.slot,
            signer: self.signer.clone(),
            mint: self.mint.clone(),
            trade_type: self.trade_type,
            token_amount_requested: self.token_amount_requested,
            sol_limit_specified: self.sol_limit_specified,
            sol_change: self.sol_change,
            token_change: self.token_change,
        }
    }
}

/// Compares two byte strings lexicographically.
pub fn bytes_less(a: &[u8], b: &[u8]) -> (r: bool)
    ensures
        r == bytes_lt(a@, b@),
{
    let mut i: usize = 0;
    assert(a@.skip(0) =~= a@);
    assert(b@.skip(0) =~= b@);
    while i < a.len() && i < b.len()
        invariant
            i <= a@.len(),
            i <= b@.len(),
            bytes_lt(a@, b@) == bytes_lt(a@.skip(i as int), b@.skip(i as int)),
        decreases a.len() - i,
    {
        if a[i] != b[i] {
            return a[i] < b[i];
        }
        assert(a@.skip(i as int).drop_first() =~= a@.skip(i + 1));
        assert(b@.skip(i as int).drop_first() =~= b@.skip(i + 1));
        i = i + 1;
    }
    i < b.len()
}

/// Whether `a` executed before `b`.
pub fn occurs_before(a: &ParsedTransaction, b: &ParsedTransaction) -> (r: bool)
    ensures
        r == before(*a, *b),
{
    (a.slot < b.slot) || (a.slot == b.slot && bytes_less(
        a.signature.as_str().as_bytes(),
        b.signature.as_str().as_bytes(),
    ))
}

/// Whether `a` executed after `b`.
pub fn occurs_after(a: &ParsedTransaction, b: &ParsedTransaction) -> (r: bool)
    ensures
        r == after(*a, *b),
{
    (a.slot > b.slot) || (a.slot == b.slot && bytes_less(
        b.signature.as_str().as_bytes(),
        a.signature.as_str().as_bytes(),
    ))
}

/// The short label of a trade direction.
pub fn trade_badge(trade: TradeType) -> (r: &'static str)
    ensures
        trade == TradeType::Buy ==> r@ == "BUY"@,
        trade == TradeType::Sell ==> r@ == "SELL"@,
{
    match trade {
        TradeType::Buy => "BUY",
        TradeType::Sell => "SELL",
    }
}

proof fn lemma_bytes_lt_irreflexive(a: Seq<u8>)
    ensures
        !bytes_lt(a, a),
    decreases a.len(),
{
    if a.len() > 0 {
        lemma_bytes_lt_irreflexive(a.drop_first());
    }
}

proof fn lemma_bytes_lt_transitive(a: Seq<u8>, b: Seq<u8>, c: Seq<u8>)
    requires
        bytes_lt(a, b),
        bytes_lt(b, c),
    ensures
        bytes_lt(a, c),
    decreases a.len(),
{
    if a.len() > 0 && a[0] == b[0] && b[0] == c[0] {
        lemma_bytes_lt_transitive(a.drop_first(), b.drop_first(), c.drop_first());
    }
}

proof fn lemma_bytes_lt_total(a: Seq<u8>, b: Seq<u8>)
    ensures
        a == b || bytes_lt(a, b) || bytes_lt(b, a),
        !(bytes_lt(a, b) && bytes_lt(b, a)),
    decreases a.len(),
{
    if a.len() > 0 && b.len() > 0 && a[0] == b[0] {
        lemma_bytes_lt_total(a.drop_first(), b.drop_first());
        if a.drop_first() == b.drop_first() {
            assert(a =~= seq![a[0]] + a.drop_first());
            assert(b =~= seq![b[0]] + b.drop_first());
        }
    } else if a.len() == 0 && b.len() == 0 {
        assert(a =~= b);
    }
}

/// The execution order is a strict total order: a lower height always comes
/// first, and at one height the transaction ids decide, so that of two
/// trades with different ids exactly one comes first, no trade comes before
/// itself, and the order is transitive. `after` is its converse.
pub proof fn lemma_execution_order(a: ParsedTransaction, b: ParsedTransaction, c: ParsedTransaction)
    ensures
        a.slot < b.slot ==> before(a, b),
        !before(a, a),
        a.slot == b.slot && id_bytes(a) != id_bytes(b) ==> (before(a, b) || before(b, a)),
        !(before(a, b) && before(b, a)),
        before(a, b) && before(b, c) ==> before(a, c),
        after(a, b) == before(b, a),
{
    lemma_bytes_lt_irreflexive(id_bytes(a));
    lemma_bytes_lt_total(id_bytes(a), id_bytes(b));
    if before(a, b) && before(b, c) && a.slot == b.slot && b.slot == c.slot {
        lemma_bytes_lt_transitive(id_bytes(a), id_bytes(b), id_bytes(c));
    }
}

} // verus!
