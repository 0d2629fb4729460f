//! Trades, trading pairs and asset snapshots, with the totals computed over
//! sequences of trades.
use vstd::prelude::*;

verus! {

/// Number of quantity units in one whole unit of an asset.
pub const QTY_SCALE: u64 = 100_000_000;

/// Direction of an executed trade.
#[derive(Debug, Clone, Copy, PartialEq, Eq, Structural)]
pub enum TradeType {
    Buy,
    Sell,
}

/// Kind of asset, identified by its ticker code.
#[derive(Debug)]
pub struct AssetType {
    pub code: String,
}

/// A trading pair: its symbol, its base asset and its current market price.
#[derive(Debug)]
pub struct Pair {
    pub symbol: String,
    pub base: AssetType,
    pub price: u64,
}

/// One executed fill.
#[derive(Debug)]
pub struct Trade {
    pub trade_type: TradeType,
    pub qty: u64,
    pub price: u64,
    pub pair: Pair,
}

/// A holding of an asset as reported by an external ledger.
#[derive(Debug)]
pub struct Asset {
    pub amount: u64,
    pub asset_type: AssetType,
}

impl Clone for AssetType {
    fn clone(&self) -> (r: Self)
        ensures
            r == *self,
    {
        AssetType { code: self.code.clone() }
    }
}

impl Clone for Pair {
    fn clone(&self) -> (r: Self)
        ensures
            r == *self,
    {
        Pair { symbol: self.symbol.clone(), base: self.base.clone(), price: self.price }
    }
}

impl Clone for Trade {
    fn clone(&self) -> (r: Self)
        ensures
            r == *self,
    {
        Trade {
            trade_type: self.trade_type,
            qty: self.qty,
            price: self.price,
            pair: self.pair.clone(),
        }
    }
}

impl Clone for Asset {
    fn clone(&self) -> (r: Self)
        ensures
            r == *self,
    {
        Asset { amount: self.amount, asset_type: self.asset_type.clone() }
    }
}

impl Pair {
    /// The base asset of the pair.
    pub fn base_type(&self) -> (r: AssetType)
        ensures
            r == self.base,
    {
        self.base.clone()
    }
}

/// Signed effect of a trade on the held quantity: a buy adds, a sell removes.
pub open spec fn signed_qty(t: Trade) -> int {
    match t.trade_type {
        TradeType::Buy => t.qty as int,
        TradeType::Sell => -(t.qty as int),
    }
}

/// The trades of `s` of the given direction, in their original order.
pub open spec fn of_type(s: Seq<Trade>, kind: TradeType) -> Seq<Trade>
    decreases s.len(),
{
    if s.len() == 0 {
        Seq::empty()
    } else if s.last().trade_type == kind {
        of_type(s.drop_last(), kind).push(s.last())
    } else {
        of_type(s.drop_last(), kind)
    }
}

/// Sum of the quantities of the trades of `s`.
pub open spec fn total_qty(s: Seq<Trade>) -> int
    decreases s.len(),
{
    if s.len() == 0 {
        0
    } else {
        total_qty(s.drop_last()) + s.last().qty
    }
}

/// Sum of the execution prices of the trades of `s`.
pub open spec fn total_price(s: Seq<Trade>) -> int
    decreases s.len(),
{
    if s.len() == 0 {
        0
    } else {
        total_price(s.drop_last()) + s.last().price
    }
}

/// Sum of the current market prices of the pairs of the trades of `s`.
pub open spec fn total_market_price(s: Seq<Trade>) -> int
    decreases s.len(),
{
    if s.len() == 0 {
        0
    } else {
        total_market_price(s.drop_last()) + s.last().pair.price
    }
}

/// Sum of price times quantity over the trades of `s`.
pub open spec fn notional(s: Seq<Trade>) -> int
    decreases s.len(),
{
    if s.len() == 0 {
        0
    } else {
        notional(s.drop_last()) + s.last().price * s.last().qty
    }
}

/// Each per-trade total is at most the number of trades times `u64::MAX`.
pub proof fn lemma_totals_bounded(s: Seq<Trade>)
    ensures
        0 <= total_qty(s) <= s.len() * u64::MAX,
        0 <= total_price(s),
        0 <= total_market_price(s),
        0 <= notional(s),
        total_price(s) <= s.len() * u64::MAX,
        total_market_price(s) <= s.len() * u64::MAX,
        notional(s) <= u64::MAX * total_qty(s),
    decreases s.len(),
{
    if s.len() > 0 {
        let t = s.last();
        lemma_totals_bounded(s.drop_last());
        assert(0 <= t.price * t.qty <= u64::MAX * t.qty) by (nonlinear_arith)
            requires
                t.price <= u64::MAX,
        ;
        assert((s.len() - 1) * u64::MAX + u64::MAX == s.len() * u64::MAX) by (nonlinear_arith);
        assert(u64::MAX * total_qty(s.drop_last()) + u64::MAX * t.qty == u64::MAX * (
        total_qty(s.drop_last()) + t.qty)) by (nonlinear_arith);
    }
}

/// The totals of a prefix never exceed the totals of the whole sequence.
pub proof fn lemma_prefix_totals(s: Seq<Trade>, i: int)
    requires
        0 <= i <= s.len(),
    ensures
        total_qty(s.subrange(0, i)) <= total_qty(s),
        notional(s.subrange(0, i)) <= notional(s),
    decreases s.len(),
{
    if i == s.len() {
        assert(s.subrange(0, i) =~= s);
    } else {
        assert(s.drop_last().subrange(0, i) =~= s.subrange(0, i));
        lemma_prefix_totals(s.drop_last(), i);
        assert(s.last().price * s.last().qty >= 0) by (nonlinear_arith);
    }
}

proof fn lemma_count_times_max(k: int)
    requires
        0 <= k <= u64::MAX,
    ensures
        k * u64::MAX <= u128::MAX,
{
    assert(k * u64::MAX <= u64::MAX * u64::MAX) by (nonlinear_arith)
        requires
            0 <= k <= u64::MAX,
    ;
}

/// Sum of the quantities of `trades`.
pub fn sum_qty(trades: &Vec<Trade>) -> (r: u128)
    ensures
        r == total_qty(trades@),
{
    let mut sum: u128 = 0;
    let mut i: usize = 0;
    while i < trades.len()
        invariant
            i <= trades@.len(),
            sum == total_qty(trades@.subrange(0, i as int)),
        decreases trades@.len() - i,
    {
        let ghost next = trades@.subrange(0, i + 1);
        proof {
            assert(next.drop_last() =~= trades@.subrange(0, i as int));
            lemma_totals_bounded(next);
            lemma_count_times_max(i + 1);
        }
        sum = sum + trades[i].qty as u128;
        i = i + 1;
    }
    assert(trades@.subrange(0, i as int) =~= trades@);
    sum
}

/// Sum of the execution prices of `trades`.
pub fn sum_price(trades: &Vec<Trade>) -> (r: u128)
    ensures
        r == total_price(trades@),
{
    let mut sum: u128 = 0;
    let mut i: usize = 0;
    while i < trades.len()
        invariant
            i <= trades@.len(),
            sum == total_price(trades@.subrange(0, i as int)),
        decreases trades@.len() - i,
    {
        let ghost next = trades@.subrange(0, i + 1);
        proof {
            assert(next.drop_last() =~= trades@.subrange(0, i as int));
            lemma_totals_bounded(next);
            lemma_count_times_max(i + 1);
        }
        sum = sum + trades[i].price as u128;
        i = i + 1;
    }
    assert(trades@.subrange(0, i as int) =~= trades@);
    sum
}

/// Sum of the current market prices of the pairs of `trades`.
pub fn sum_market_price(trades: &Vec<Trade>) -> (r: u128)
    ensures
        r == total_market_price(trades@),
{
    let mut sum: u128 = 0;
    let mut i: usize = 0;
    while i < trades.len()
        invariant
            i <= trades@.len(),
            sum == total_market_price(trades@.subrange(0, i as int)),
        decreases trades@.len() - i,
    {
        let ghost next = trades@.subrange(0, i + 1);
        proof {
            assert(next.drop_last() =~= trades@.subrange(0, i as int));
            lemma_totals_bounded(next);
            lemma_count_times_max(i + 1);
        }
        sum = sum + trades[i].pair.price as u128;
        i = i + 1;
    }
    assert(trades@.subrange(0, i as int) =~= trades@);
    sum
}

/// Sum of price times quantity over `trades`.
pub fn sum_notional(trades: &Vec<Trade>) -> (r: u128)
    requires
        notional(trades@) <= u128::MAX,
    ensures
        r == notional(trades@),
{
    let mut sum: u128 = 0;
    let mut i: usize = 0;
    while i < trades.len()
        invariant
            i <= trades@.len(),
            notional(trades@) <= u128::MAX,
            sum == notional(trades@.subrange(0, i as int)),
        decreases trades@.len() - i,
    {
        let ghost next = trades@.subrange(0, i + 1);
        proof {
            assert(next.drop_last() =~= trades@.subrange(0, i as int));
            lemma_prefix_totals(trades@, i + 1);
        }
        let t = &trades[i];
        assert(t.price * t.qty <= u64::MAX * u64::MAX) by (nonlinear_arith)
            requires
                t.price <= u64::MAX,
                t.qty <= u64::MAX,
        ;
        sum = sum + (t.price as u128) * (t.qty as u128);
        i = i + 1;
    }
    assert(trades@.subrange(0, i as int) =~= trades@);
    sum
}

} // verus!
