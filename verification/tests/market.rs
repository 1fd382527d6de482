use moex_order_book::{Action, Decimal, DerivativeOrderLog, Market, Price, Side, TradeLog};

fn log(id: i64, side: Side, action: Action, price: Option<&str>, volume: i64) -> DerivativeOrderLog {
    let mut l = DerivativeOrderLog::default();
    l.id = id;
    l.side = side;
    l.action = action;
    l.price = match price {
        Some(p) => Price::Limit(Decimal::from_str(p).unwrap()),
        None => Price::Market,
    };
    l.volume = volume;
    l.name = "Si73750BC2".to_string();
    l
}

fn trade() -> Action {
    Action::Trade(TradeLog { price: Decimal::from_i64(1), id: 1 })
}

#[test]
fn market_order_is_given_back() {
    let mut m = Market { books: Vec::new() };
    assert!(m.handle(log(5, Side::Buy, Action::Add, None, 3)).is_none());
    assert_eq!(m.books.len(), 1);
    assert_eq!(m.books[0].id.name, "Si73750BC2");
    let back = m.handle(log(5, Side::Buy, Action::Cancel, None, 3)).unwrap();
    assert_eq!(back.id, 5);
    assert_eq!(back.action, Action::Add);
    assert!(m.books[0].remaining_market_orders.is_empty());
    m.handle(log(6, Side::Sell, Action::Add, None, 3));
    let back = m.handle(log(6, Side::Sell, trade(), None, 3)).unwrap();
    assert_eq!(back.id, 6);
}

#[test]
fn limit_orders_by_side_and_price() {
    let mut m = Market { books: Vec::new() };
    m.handle(log(1, Side::Buy, Action::Add, Some("10"), 5));
    m.handle(log(2, Side::Buy, Action::Add, Some("9.5"), 5));
    m.handle(log(3, Side::Sell, Action::Add, Some("11"), 5));
    m.handle(log(4, Side::Buy, Action::Add, Some("10.0"), 2));
    let book = &m.books[0];
    let bid_prices: Vec<(i128, u32)> = book.bids.iter().map(|(p, _)| (p.mantissa(), p.scale())).collect();
    assert_eq!(bid_prices, vec![(95, 1), (10, 0)]);
    assert_eq!(book.bids[1].1.set, vec![1, 4]);
    assert_eq!(book.asks.len(), 1);
    assert_eq!(book.asks[0].1.set, vec![3]);
    assert_eq!(m.books.len(), 1);
}

#[test]
fn limit_trade_and_cancel() {
    let mut m = Market { books: Vec::new() };
    m.handle(log(1, Side::Buy, Action::Add, Some("10"), 5));
    m.handle(log(2, Side::Buy, Action::Add, Some("10"), 4));
    assert!(m.handle(log(1, Side::Buy, trade(), Some("10"), 2)).is_none());
    assert_eq!(m.books[0].bids[0].1.map[&1].volume, 3);
    m.handle(log(1, Side::Buy, trade(), Some("10"), 3));
    assert!(!m.books[0].bids[0].1.map.contains_key(&1));
    m.handle(log(2, Side::Buy, Action::Cancel, Some("10"), 4));
    assert!(m.books[0].bids[0].1.map.is_empty());
    assert!(m.books[0].bids[0].1.set.is_empty());
}

#[test]
fn books_per_symbol() {
    let mut m = Market { books: Vec::new() };
    m.handle(log(1, Side::Buy, Action::Add, Some("10"), 5));
    let mut other = log(2, Side::Buy, Action::Add, Some("10"), 5);
    other.name = "RIH2".to_string();
    m.handle(other);
    assert_eq!(m.books.len(), 2);
    assert_eq!(m.books[1].id.name, "RIH2");
}
