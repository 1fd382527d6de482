use moex_order_book::{
    Action, Decimal, MoexOrderBook, MoexOrderLog, OrderLog, OrderStack, Price, Side, TimeOfDay,
};

fn order(orderno: u64, side: Side, price: &str, volume: i64) -> OrderLog {
    OrderLog {
        no: orderno,
        seccode: "SBER".to_string(),
        buysell: side,
        time: TimeOfDay { secs: 0, frac: 0 },
        orderno,
        action: Action::Add,
        price: Price::Limit(Decimal::from_str(price).unwrap()),
        volume,
    }
}

fn prices(levels: &[OrderStack<OrderLog>]) -> Vec<(i128, u32)> {
    levels.iter().map(|l| (l.price.mantissa(), l.price.scale())).collect()
}

#[test]
fn add_keeps_levels_in_price_order() {
    let mut book: MoexOrderBook<OrderLog> = MoexOrderBook::new("SBER".to_string());
    book.add(order(1, Side::Buy, "10.5", 5));
    book.add(order(2, Side::Buy, "10", 7));
    book.add(order(3, Side::Buy, "10.50", 1));
    book.add(order(4, Side::Buy, "11", 2));
    assert_eq!(prices(&book.asks), vec![(10, 0), (105, 1), (11, 0)]);
    assert!(book.bids.is_empty());
    let level = &book.asks[1];
    assert_eq!(level.set, vec![1, 3]);
    assert_eq!(level.map.len(), 2);
    assert_eq!(level.map[&3].volume, 1);
}

#[test]
fn sell_orders_rest_with_the_bids() {
    let mut book: MoexOrderBook<OrderLog> = MoexOrderBook::new("SBER".to_string());
    book.add(order(1, Side::Sell, "3", 5));
    book.add(order(2, Side::Sell, "1", 5));
    assert!(book.asks.is_empty());
    assert_eq!(prices(&book.bids), vec![(1, 0), (3, 0)]);
}

#[test]
fn execute_partly_then_fully() {
    let mut book: MoexOrderBook<OrderLog> = MoexOrderBook::new("SBER".to_string());
    book.add(order(1, Side::Buy, "10", 5));
    book.add(order(2, Side::Buy, "10", 4));
    book.execute(&order(1, Side::Buy, "10.0", 3));
    assert_eq!(book.asks[0].map[&1].volume, 2);
    assert_eq!(book.asks[0].set, vec![1, 2]);
    book.execute(&order(1, Side::Buy, "10", 2));
    assert!(!book.asks[0].map.contains_key(&1));
    assert_eq!(book.asks[0].set, vec![2]);
    // the level stays even once it is empty
    book.execute(&order(2, Side::Buy, "10", 4));
    assert_eq!(book.asks.len(), 1);
    assert!(book.asks[0].map.is_empty());
}

#[test]
fn remove_gives_nothing_back() {
    let mut book: MoexOrderBook<OrderLog> = MoexOrderBook::new("SBER".to_string());
    book.add(order(1, Side::Buy, "10", 5));
    book.add(order(2, Side::Buy, "10", 4));
    let r = book.remove(&order(1, Side::Buy, "10", 5));
    assert!(r.is_none());
    assert!(!book.asks[0].map.contains_key(&1));
    assert_eq!(book.asks[0].set, vec![2]);
    // the level stays even once its last order is taken out
    assert!(book.remove(&order(2, Side::Buy, "10.00", 4)).is_none());
    assert_eq!(book.asks.len(), 1);
    assert!(book.asks[0].map.is_empty());
    assert!(book.asks[0].set.is_empty());
}

#[test]
fn stack_add_then_remove_by_id_restores() {
    let mut stack: OrderStack<OrderLog> = OrderStack::default();
    stack.add(order(1, Side::Buy, "10", 5));
    stack.add(order(2, Side::Buy, "10", 5));
    assert_eq!(stack.set, vec![1, 2]);
    stack.add(order(7, Side::Buy, "10", 5));
    assert!(stack.remove_by_id(&7).is_none());
    assert_eq!(stack.set, vec![1, 2]);
    assert_eq!(stack.map.len(), 2);
    assert!(stack.remove_by_id(&1).is_none());
    assert_eq!(stack.set, vec![2]);
    // an id the stack does not hold changes nothing
    assert!(stack.remove_by_id(&5).is_none());
    assert_eq!(stack.set, vec![2]);
    assert_eq!(stack.map.len(), 1);
}

#[test]
fn log_accessors() {
    let log = order(9, Side::Sell, "1.25", 3);
    assert_eq!(log.order_no(), 9);
    assert_eq!(log.seq_num(), 9);
    assert_eq!(*log.side(), Side::Sell);
    assert_eq!(log.ticker(), "SBER");
    assert_eq!(log.volume(), 3);
    assert_eq!(log.action(), Action::Add);
    let mut log = log;
    *log.volume_mut() -= 1;
    assert_eq!(log.volume, 2);
    assert!(<OrderLog as MoexOrderLog>::new_from_str("1,ALRS,S,70000000000,1,1,119.79,1600,,").is_some());
}

#[test]
fn default_book_is_empty() {
    let book: MoexOrderBook<OrderLog> = MoexOrderBook::default();
    assert!(book.asks.is_empty() && book.bids.is_empty());
    assert_eq!(book.ticker, "");
}

#[test]
fn add_keeps_every_level_well_formed() {
    let mut book: MoexOrderBook<OrderLog> = MoexOrderBook::new("SBER".to_string());
    let before = book.asks.len();
    book.add(order(3, Side::Buy, "10", 1));
    assert_eq!(book.asks.len(), before + 1);
    book.add(order(5, Side::Buy, "10.0", 2));
    assert_eq!(book.asks.len(), before + 1);
    book.add(order(8, Side::Buy, "9", 2));
    book.add(order(9, Side::Buy, "10", 2));
    assert_eq!(book.asks.len(), 2);
    for level in &book.asks {
        assert!(!level.set.is_empty());
        assert!(level.set.windows(2).all(|w| w[0] < w[1]));
        assert_eq!(level.set.len(), level.map.len());
        for no in &level.set {
            assert_eq!(level.map[no].orderno, *no);
        }
    }
    assert_eq!(book.asks[1].set, vec![3, 5, 9]);
    assert!(book.bids.is_empty());
}
