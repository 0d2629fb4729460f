//! A position: the trailing trades that explain a holding, with the
//! quantities, prices and state derived from them.
use vstd::prelude::*;
use crate::selector::{get_trades_for_qty, selection};
use crate::trade::{
    notional, of_type, sum_market_price, sum_notional, sum_price, sum_qty, total_market_price,
    total_price, total_qty, Asset, AssetType, Trade, TradeType,
    lemma_totals_bounded,
};

verus! {

/// Where a position stands, judged from its bought and sold quantities.
#[derive(Debug, Clone, Copy, PartialEq, Eq, Structural)]
pub enum PositionState {
    Open,
    Partial,
    Closed,
    /// More was sold than was bought.
    Irreconciled,
    /// Inputs that make no sense; never derived from quantities.
    Invalid,
}

/// Why a position could not be built.
#[derive(Debug, Clone, Copy, PartialEq, Eq, Structural)]
pub enum PositionError {
    /// The trade history was empty.
    NoTrades,
}

/// The trades that explain a holding, oldest first, and the holding itself.
#[derive(Debug)]
pub struct Position {
    pub trades: Vec<Trade>,
    pub asset: Asset,
}

/// The state of a position that bought `buy` and sold `sell` quantity units.
pub open spec fn state_of(buy: int, sell: int) -> PositionState {
    if sell == 0 {
        PositionState::Open
    } else if buy == sell {
        PositionState::Closed
    } else if sell < buy {
        PositionState::Partial
    } else {
        PositionState::Irreconciled
    }
}

/// Short label of a state.
pub open spec fn state_label(s: PositionState) -> Seq<char> {
    match s {
        PositionState::Open => "OPEN"@,
        PositionState::Partial => "PART"@,
        PositionState::Closed => "CLOSED"@,
        PositionState::Irreconciled => "IRREC"@,
        PositionState::Invalid => "INVALID"@,
    }
}

/// Quantity-weighted average price of `s`, rounded down.
pub open spec fn weighted_price(s: Seq<Trade>) -> int {
    notional(s) / total_qty(s)
}

/// Arithmetic mean of the execution prices of `s`, rounded down.
pub open spec fn mean_price(s: Seq<Trade>) -> int {
    total_price(s) / s.len() as int
}

/// Arithmetic mean of the market prices of the pairs of `s`, rounded down.
pub open spec fn mean_market_price(s: Seq<Trade>) -> int {
    total_market_price(s) / s.len() as int
}

/// Change from `from` to `to` in whole percent of `from`, truncated toward zero.
pub open spec fn percent_change(from: int, to: int) -> int {
    if to >= from {
        (to - from) * 100 / from
    } else {
        -((from - to) * 100 / from)
    }
}

impl PositionState {
    /// Short label of the state: OPEN, PART, CLOSED, IRREC or INVALID.
    pub fn to_string(&self) -> (r: String)
        ensures
            r@ == state_label(*self),
    {
        let label = match self {
            PositionState::Open => "OPEN",
            PositionState::Partial => "PART",
            PositionState::Closed => "CLOSED",
            PositionState::Irreconciled => "IRREC",
            PositionState::Invalid => "INVALID",
        };
        proof {
            reveal_strlit("OPEN");
            reveal_strlit("PART");
            reveal_strlit("CLOSED");
            reveal_strlit("IRREC");
            reveal_strlit("INVALID");
        }
        label.to_string()
    }
}

/// Classifies a position from its bought and sold quantities.
pub fn derive_state(buy_qty: u128, sell_qty: u128) -> (r: PositionState)
    ensures
        r == state_of(buy_qty as int, sell_qty as int),
        sell_qty == 0 ==> r == PositionState::Open,
        sell_qty > 0 && buy_qty == sell_qty ==> r == PositionState::Closed,
        0 < sell_qty < buy_qty ==> r == PositionState::Partial,
        sell_qty > buy_qty ==> r == PositionState::Irreconciled,
        r != PositionState::Invalid,
{
    if sell_qty == 0 {
        return PositionState::Open;
    }
    if buy_qty == sell_qty {
        return PositionState::Closed;
    }
    if sell_qty < buy_qty {
        return PositionState::Partial;
    }
    PositionState::Irreconciled
}

fn trades_of_type(trades: &Vec<Trade>, kind: TradeType) -> (r: Vec<Trade>)
    ensures
        r@ == of_type(trades@, kind),
{
    let mut out: Vec<Trade> = Vec::new();
    let mut i: usize = 0;
    while i < trades.len()
        invariant
            i <= trades@.len(),
            out@ == of_type(trades@.subrange(0, i as int), kind),
        decreases trades@.len() - i,
    {
        let ghost next = trades@.subrange(0, i + 1);
        assert(next.drop_last() =~= trades@.subrange(0, i as int));
        if trades[i].trade_type == kind {
            out.push(trades[i].clone());
        }
        i = i + 1;
    }
    assert(trades@.subrange(0, i as int) =~= trades@);
    out
}

/// Merges same-direction trades into one: its quantity is their total and its
/// price their quantity-weighted average (rounded down); direction and pair
/// come from the first trade. There is nothing to merge when the total
/// quantity is zero, an empty input included.
pub fn average_trades(trades: Vec<Trade>) -> (r: Option<Trade>)
    requires
        total_qty(trades@) <= u64::MAX,
        notional(trades@) <= u128::MAX,
    ensures
        r is None <==> total_qty(trades@) == 0,
        r matches Some(t) ==> {
            &&& t.qty == total_qty(trades@)
            &&& t.price == weighted_price(trades@)
            &&& t.trade_type == trades@[0].trade_type
            &&& t.pair == trades@[0].pair
        },
        trades@.len() == 1 && trades@[0].qty > 0 ==> r == Some(trades@[0]),
{
    proof {
        if trades@.len() == 1 {
            let t = trades@[0];
            assert(trades@.drop_last() =~= Seq::<Trade>::empty());
            assert(total_qty(Seq::<Trade>::empty()) == 0);
            assert(notional(Seq::<Trade>::empty()) == 0);
            assert(trades@.last() == t);
            assert(total_qty(trades@) == t.qty);
            assert(notional(trades@) == t.price * t.qty);
            if t.qty > 0 {
                assert((t.price * t.qty) / (t.qty as int) == t.price) by (nonlinear_arith)
                    requires
                        t.qty > 0,
                ;
            }
        }
    }
    let qty = sum_qty(&trades);
    if qty == 0 {
        return None;
    }
    let total = sum_notional(&trades);
    proof {
        lemma_totals_bounded(trades@);
        lemma_weighted_fits(notional(trades@), total_qty(trades@));
    }
    let price = total / qty;
    let first = trades[0].clone();
    let merged = Trade {
        trade_type: first.trade_type,
        qty: qty as u64,
        price: price as u64,
        pair: first.pair,
    };
    Some(merged)
}

/// A total no larger than `u64::MAX` times a positive count divides by that
/// count to at most `u64::MAX`, and the rounded-down quotient times the count
/// does not exceed the total.
proof fn lemma_weighted_fits(total: int, count: int)
    requires
        count > 0,
        0 <= total <= u64::MAX * count,
    ensures
        0 <= total / count <= u64::MAX,
        (total / count) * count <= total,
{
    assert(0 <= total / count <= u64::MAX) by (nonlinear_arith)
        requires
            count > 0,
            0 <= total <= u64::MAX * count,
    ;
    assert((total / count) * count <= total) by (nonlinear_arith)
        requires
            count > 0,
            0 <= total,
    ;
}

impl Position {
    /// The bought trades, oldest first.
    pub open spec fn buys(&self) -> Seq<Trade> {
        of_type(self.trades@, TradeType::Buy)
    }

    /// The sold trades, oldest first.
    pub open spec fn sells(&self) -> Seq<Trade> {
        of_type(self.trades@, TradeType::Sell)
    }

    /// Builds the position that explains holding `asset` from the trade
    /// history `trades` (oldest first): it keeps the trailing trades that the
    /// selection picks for the held amount. An empty history is refused.
    pub fn new(trades: Vec<Trade>, asset: Asset) -> (r: Result<Position, PositionError>)
        ensures
            r is Ok <==> trades@.len() > 0,
            r matches Err(e) ==> e == PositionError::NoTrades,
            r matches Ok(p) ==> p.trades@ == selection(trades@, asset.amount as int) && p.asset
                == asset,
    {
        if trades.len() == 0 {
            return Err(PositionError::NoTrades);
        }
        Ok(Position { trades: get_trades_for_qty(&trades, asset.amount), asset })
    }

    /// Symbol of the pair of the first trade, or `ERROR` when there is none.
    pub fn symbol(&self) -> (r: String)
        ensures
            self.trades@.len() > 0 ==> r@ == self.trades@[0].pair.symbol@,
            self.trades@.len() == 0 ==> r@ == "ERROR"@,
    {
        if self.trades.len() > 0 {
            self.trades[0].pair.symbol.clone()
        } else {
            proof {
                reveal_strlit("ERROR");
            }
            "ERROR".to_string()
        }
    }

    /// The bought trades, oldest first.
    pub fn buy_trades(&self) -> (r: Vec<Trade>)
        ensures
            r@ == self.buys(),
    {
        trades_of_type(&self.trades, TradeType::Buy)
    }

    /// The sold trades, oldest first.
    pub fn sell_trades(&self) -> (r: Vec<Trade>)
        ensures
            r@ == self.sells(),
    {
        trades_of_type(&self.trades, TradeType::Sell)
    }

    /// Total bought quantity.
    pub fn buy_qty(&self) -> (r: u128)
        ensures
            r == total_qty(self.buys()),
    {
        sum_qty(&self.buy_trades())
    }

    /// Total sold quantity.
    pub fn sell_qty(&self) -> (r: u128)
        ensures
            r == total_qty(self.sells()),
    {
        sum_qty(&self.sell_trades())
    }

    /// Net quantity implied by the trades: bought minus sold.
    pub fn qty(&self) -> (r: i128)
        requires
            total_qty(self.buys()) <= i128::MAX,
            total_qty(self.sells()) <= i128::MAX,
        ensures
            r == total_qty(self.buys()) - total_qty(self.sells()),
    {
        let bought = self.buy_qty();
        let sold = self.sell_qty();
        bought as i128 - sold as i128
    }

    /// Quantity-weighted average price of the bought trades, rounded down;
    /// `None` when nothing was bought.
    pub fn entry_price(&self) -> (r: Option<u64>)
        requires
            notional(self.buys()) <= u128::MAX,
        ensures
            r is None <==> total_qty(self.buys()) == 0,
            r matches Some(p) ==> p == weighted_price(self.buys()),
    {
        let buys = self.buy_trades();
        let qty = sum_qty(&buys);
        if qty == 0 {
            return None;
        }
        let total = sum_notional(&buys);
        proof {
            lemma_totals_bounded(buys@);
            lemma_weighted_fits(notional(buys@), total_qty(buys@));
        }
        Some((total / qty) as u64)
    }

    /// Arithmetic mean of the prices of the sold trades, rounded down; `None`
    /// when nothing was sold.
    pub fn exit_price(&self) -> (r: Option<u64>)
        ensures
            r is None <==> self.sells().len() == 0,
            r matches Some(p) ==> p == mean_price(self.sells()),
    {
        let sells = self.sell_trades();
        if sells.len() == 0 {
            return None;
        }
        let total = sum_price(&sells);
        proof {
            lemma_totals_bounded(sells@);
            lemma_weighted_fits(total_price(sells@), sells@.len() as int);
        }
        Some((total / sells.len() as u128) as u64)
    }

    /// Arithmetic mean of the current market prices of the pairs of the
    /// bought trades, rounded down; `None` when nothing was bought.
    pub fn current_price(&self) -> (r: Option<u64>)
        ensures
            r is None <==> self.buys().len() == 0,
            r matches Some(p) ==> p == mean_market_price(self.buys()),
    {
        let buys = self.buy_trades();
        if buys.len() == 0 {
            return None;
        }
        let total = sum_market_price(&buys);
        proof {
            lemma_totals_bounded(buys@);
            lemma_weighted_fits(total_market_price(buys@), buys@.len() as int);
        }
        Some((total / buys.len() as u128) as u64)
    }

    /// Entry price times bought quantity; zero when nothing was bought.
    pub fn buy_cost(&self) -> (r: u128)
        requires
            notional(self.buys()) <= u128::MAX,
        ensures
            total_qty(self.buys()) == 0 ==> r == 0,
            total_qty(self.buys()) > 0 ==> r == weighted_price(self.buys()) * total_qty(
                self.buys(),
            ),
    {
        let qty = self.buy_qty();
        match self.entry_price() {
            None => 0,
            Some(p) => {
                proof {
                    lemma_totals_bounded(self.buys());
                    lemma_weighted_fits(notional(self.buys()), total_qty(self.buys()));
                }
                p as u128 * qty
            },
        }
    }

    /// Exit price times sold quantity; zero when nothing was sold.
    pub fn sell_cost(&self) -> (r: u128)
        requires
            self.sells().len() > 0 ==> mean_price(self.sells()) * total_qty(self.sells())
                <= u128::MAX,
        ensures
            self.sells().len() == 0 ==> r == 0,
            self.sells().len() > 0 ==> r == mean_price(self.sells()) * total_qty(self.sells()),
    {
        let qty = self.sell_qty();
        match self.exit_price() {
            None => 0,
            Some(p) => p as u128 * qty,
        }
    }

    /// The bought trades merged into one; `None` when nothing was bought.
    pub fn buy_trade(&self) -> (r: Option<Trade>)
        requires
            total_qty(self.buys()) <= u64::MAX,
            notional(self.buys()) <= u128::MAX,
        ensures
            r is None <==> total_qty(self.buys()) == 0,
            r matches Some(t) ==> {
                &&& t.qty == total_qty(self.buys())
                &&& t.price == weighted_price(self.buys())
                &&& t.trade_type == TradeType::Buy
                &&& t.pair == self.buys()[0].pair
            },
    {
        let r = average_trades(self.buy_trades());
        proof {
            if r is Some {
                lemma_of_type_first(self.trades@, TradeType::Buy);
            }
        }
        r
    }

    /// The sold trades merged into one; `None` when nothing was sold.
    pub fn sell_trade(&self) -> (r: Option<Trade>)
        requires
            total_qty(self.sells()) <= u64::MAX,
            notional(self.sells()) <= u128::MAX,
        ensures
            r is None <==> total_qty(self.sells()) == 0,
            r matches Some(t) ==> {
                &&& t.qty == total_qty(self.sells())
                &&& t.price == weighted_price(self.sells())
                &&& t.trade_type == TradeType::Sell
                &&& t.pair == self.sells()[0].pair
            },
    {
        let r = average_trades(self.sell_trades());
        proof {
            if r is Some {
                lemma_of_type_first(self.trades@, TradeType::Sell);
            }
        }
        r
    }

    /// The held amount as the ledger reports it.
    pub fn remaining_qty(&self) -> (r: u64)
        ensures
            r == self.asset.amount,
    {
        self.asset.amount
    }

    /// State of the position, from its bought and sold quantities.
    pub fn state(&self) -> (r: PositionState)
        ensures
            r == state_of(total_qty(self.buys()), total_qty(self.sells())),
    {
        derive_state(self.buy_qty(), self.sell_qty())
    }

    /// Change from the entry price to the current price, in whole percent of
    /// the entry price truncated toward zero; `None` when nothing was bought
    /// or the entry price is zero.
    pub fn current_profit_as_percent(&self) -> (r: Option<i128>)
        requires
            notional(self.buys()) <= u128::MAX,
        ensures
            r is None <==> (total_qty(self.buys()) == 0 || weighted_price(self.buys()) == 0),
            r matches Some(v) ==> v == percent_change(
                weighted_price(self.buys()),
                mean_market_price(self.buys()),
            ),
    {
        let entry = match self.entry_price() {
            None => {
                return None;
            },
            Some(p) => p,
        };
        if entry == 0 {
            return None;
        }
        proof {
            lemma_of_type_qty_nonempty(self.trades@, TradeType::Buy);
        }
        let current = match self.current_price() {
            None => {
                return None;
            },
            Some(p) => p,
        };
        if current >= entry {
            Some((((current - entry) as u128 * 100) / entry as u128) as i128)
        } else {
            Some(-((((entry - current) as u128 * 100) / entry as u128) as i128))
        }
    }

    /// The base asset of the pair of the first trade, if there is one.
    pub fn base_type(&self) -> (r: Option<AssetType>)
        ensures
            self.trades@.len() == 0 ==> r is None,
            self.trades@.len() > 0 ==> r == Some(self.trades@[0].pair.base),
    {
        if self.trades.len() > 0 {
            Some(self.trades[0].pair.base_type())
        } else {
            None
        }
    }
}

/// The first trade of a direction in `s` has that direction.
proof fn lemma_of_type_first(s: Seq<Trade>, kind: TradeType)
    ensures
        forall|i: int| 0 <= i < of_type(s, kind).len() ==> #[trigger] of_type(s, kind)[i].trade_type == kind,
    decreases s.len(),
{
    if s.len() > 0 {
        lemma_of_type_first(s.drop_last(), kind);
    }
}

/// Trades with a positive total quantity are not an empty sequence.
proof fn lemma_of_type_qty_nonempty(s: Seq<Trade>, kind: TradeType)
    ensures
        total_qty(of_type(s, kind)) > 0 ==> of_type(s, kind).len() > 0,
{
}

} // verus!
