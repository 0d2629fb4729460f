use trailer::position::{average_trades, derive_state, Position, PositionError, PositionState};
use trailer::selector::get_trades_for_qty;
use trailer::trade::{Asset, AssetType, Pair, Trade, TradeType, QTY_SCALE};

fn units(n: u64) -> u64 {
    n * QTY_SCALE
}

fn trade(trade_type: TradeType, qty: u64, price: u64) -> Trade {
    Trade {
        trade_type,
        qty,
        price,
        pair: Pair {
            symbol: "BTCUSDT".to_string(),
            base: AssetType { code: "BTC".to_string() },
            price: 120,
        },
    }
}

fn buy(whole: u64, price: u64) -> Trade {
    trade(TradeType::Buy, units(whole), price)
}

fn sell(whole: u64, price: u64) -> Trade {
    trade(TradeType::Sell, units(whole), price)
}

fn asset(amount: u64) -> Asset {
    Asset { amount, asset_type: AssetType { code: "BTC".to_string() } }
}

fn position(trades: Vec<Trade>, amount: u64) -> Position {
    Position::new(trades, asset(amount)).unwrap()
}

#[test]
fn empty_history_is_refused() {
    let r = Position::new(Vec::new(), asset(units(1)));
    assert_eq!(r.unwrap_err(), PositionError::NoTrades);
}

#[test]
fn non_empty_history_is_accepted() {
    assert!(Position::new(vec![buy(1, 100)], asset(units(1))).is_ok());
    // Even when the held amount selects nothing.
    let p = Position::new(vec![buy(1, 100), sell(1, 100)], asset(0)).unwrap();
    assert_eq!(p.trades.len(), 0);
    assert_eq!(p.symbol(), "ERROR");
    assert!(p.base_type().is_none());
}

#[test]
fn scenario_single_buy() {
    let p = position(vec![buy(10, 100)], units(10));
    assert_eq!(p.trades.len(), 1);
    assert_eq!(p.buy_trades().len(), 1);
    assert_eq!(p.buy_qty(), units(10) as u128);
    assert_eq!(p.entry_price(), Some(100));
    assert_eq!(p.exit_price(), None);
    assert_eq!(p.state(), PositionState::Open);
}

#[test]
fn scenario_two_buys() {
    let p = position(vec![buy(10, 100), buy(10, 200)], units(20));
    assert_eq!(p.trades.len(), 2);
    assert_eq!(p.buy_trades().len(), 2);
    assert_eq!(p.sell_trades().len(), 0);
    assert_eq!(p.entry_price(), Some(150));
    assert_eq!(p.exit_price(), None);
    assert_eq!(p.buy_qty(), units(20) as u128);
    assert_eq!(p.sell_qty(), 0);
    assert_eq!(p.state(), PositionState::Open);
}

#[test]
fn scenario_closed() {
    let p = position(vec![buy(1, 100), sell(1, 100)], units(1));
    assert_eq!(p.trades.len(), 2);
    assert_eq!(p.state(), PositionState::Closed);
    assert_eq!(p.qty(), 0);
}

#[test]
fn scenario_irreconciled() {
    let p = position(vec![buy(1, 100), sell(2, 100)], units(1));
    assert_eq!(p.trades.len(), 2);
    assert_eq!(p.state(), PositionState::Irreconciled);
}

#[test]
fn scenario_partial() {
    let history = vec![buy(2, 100), sell(1, 100)];
    let selected = get_trades_for_qty(&history, units(1));
    assert_eq!(selected.len(), 2);
    assert_eq!(selected[0].trade_type, TradeType::Buy);
    assert_eq!(selected[1].trade_type, TradeType::Sell);
    let p = position(history, units(1));
    assert_eq!(p.state(), PositionState::Partial);
    assert_eq!(p.remaining_qty(), units(1));
}

#[test]
fn net_qty_is_bought_minus_sold() {
    let p = position(vec![buy(2, 100), buy(1, 100), buy(5, 200), sell(1, 100), sell(2, 100)], units(5));
    assert_eq!(p.buy_qty(), units(8) as u128);
    assert_eq!(p.sell_qty(), units(3) as u128);
    assert_eq!(p.qty(), units(5) as i128);
    let q = position(vec![buy(1, 100), sell(2, 100)], units(1));
    assert_eq!(q.qty(), -(units(1) as i128));
}

#[test]
fn derive_state_classifies_totals() {
    assert_eq!(derive_state(5, 0), PositionState::Open);
    assert_eq!(derive_state(0, 0), PositionState::Open);
    assert_eq!(derive_state(3, 3), PositionState::Closed);
    assert_eq!(derive_state(4, 3), PositionState::Partial);
    assert_eq!(derive_state(3, 4), PositionState::Irreconciled);
}

#[test]
fn selection_drops_closed_cycles() {
    let history = vec![buy(1, 100), sell(1, 110), buy(3, 120), sell(1, 130)];
    let selected = get_trades_for_qty(&history, units(2));
    assert_eq!(selected.len(), 2);
    assert_eq!(selected[0].qty, units(3));
    assert_eq!(selected[1].qty, units(1));
}

#[test]
fn selection_is_idempotent() {
    let history = vec![buy(1, 100), sell(1, 110), buy(3, 120), sell(1, 130)];
    let once = get_trades_for_qty(&history, units(2));
    let twice = get_trades_for_qty(&once, units(2));
    assert_eq!(once.len(), twice.len());
    for (a, b) in once.iter().zip(twice.iter()) {
        assert_eq!(a.qty, b.qty);
        assert_eq!(a.price, b.price);
        assert_eq!(a.trade_type, b.trade_type);
    }
}

#[test]
fn selection_edges() {
    let history = vec![buy(1, 100), buy(1, 100)];
    assert_eq!(get_trades_for_qty(&Vec::new(), units(3)).len(), 0);
    assert_eq!(get_trades_for_qty(&history, 0).len(), 0);
    // Less than half a unit rounds to zero: nothing to explain.
    assert_eq!(get_trades_for_qty(&history, QTY_SCALE / 2 - 1).len(), 0);
    // Half a unit rounds up to one.
    assert_eq!(get_trades_for_qty(&history, QTY_SCALE / 2).len(), 1);
    // More than the history explains takes all of it.
    assert_eq!(get_trades_for_qty(&history, units(5)).len(), 2);
}

#[test]
fn average_of_one_trade_is_that_trade() {
    let t = trade(TradeType::Sell, 7, 33);
    let avg = average_trades(vec![t.clone()]).unwrap();
    assert_eq!(avg.qty, 7);
    assert_eq!(avg.price, 33);
    assert_eq!(avg.trade_type, TradeType::Sell);
}

#[test]
fn average_weights_by_qty() {
    let avg = average_trades(vec![trade(TradeType::Buy, 1, 100), trade(TradeType::Buy, 3, 200)]).unwrap();
    assert_eq!(avg.qty, 4);
    assert_eq!(avg.price, 175);
    assert!(average_trades(Vec::new()).is_none());
}

#[test]
fn prices_and_costs() {
    let p = position(vec![buy(1, 100), buy(3, 200), sell(1, 300), sell(1, 400)], units(2));
    assert_eq!(p.entry_price(), Some(175));
    // Exit price is the plain mean of the sell prices.
    assert_eq!(p.exit_price(), Some(350));
    assert_eq!(p.current_price(), Some(120));
    assert_eq!(p.buy_cost(), 175 * units(4) as u128);
    assert_eq!(p.sell_cost(), 350 * units(2) as u128);
    assert_eq!(p.current_profit_as_percent(), Some(-31));
    let b = p.buy_trade().unwrap();
    assert_eq!(b.qty, units(4));
    assert_eq!(b.price, 175);
    let s = p.sell_trade().unwrap();
    assert_eq!(s.qty, units(2));
    assert_eq!(s.price, 350);
    assert_eq!(s.trade_type, TradeType::Sell);
}

#[test]
fn no_data_without_trades_of_a_direction() {
    let p = position(vec![buy(2, 100)], units(2));
    assert!(p.sell_trade().is_none());
    assert_eq!(p.sell_cost(), 0);
    let q = position(vec![buy(2, 100), sell(1, 100)], units(1));
    assert_eq!(q.trades.len(), 2);
    let only_sell = position(vec![sell(1, 100)], units(1));
    assert_eq!(only_sell.entry_price(), None);
    assert_eq!(only_sell.current_price(), None);
    assert_eq!(only_sell.current_profit_as_percent(), None);
    assert!(only_sell.buy_trade().is_none());
    assert_eq!(only_sell.buy_cost(), 0);
}

#[test]
fn profit_percent_gain() {
    let p = position(vec![buy(1, 100)], units(1));
    assert_eq!(p.current_profit_as_percent(), Some(20));
}

#[test]
fn symbol_and_base_type() {
    let p = position(vec![buy(1, 100)], units(1));
    assert_eq!(p.symbol(), "BTCUSDT");
    assert_eq!(p.base_type().unwrap().code, "BTC");
}

#[test]
fn state_labels() {
    assert_eq!(PositionState::Open.to_string(), "OPEN");
    assert_eq!(PositionState::Partial.to_string(), "PART");
    assert_eq!(PositionState::Closed.to_string(), "CLOSED");
    assert_eq!(PositionState::Irreconciled.to_string(), "IRREC");
    assert_eq!(PositionState::Invalid.to_string(), "INVALID");
}
