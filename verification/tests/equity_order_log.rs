use moex_order_book::{Action, Decimal, EquityOrderLog, Price, Side};

#[test]
fn equity_limit_order() {
    let log = EquityOrderLog::new("12,SBER,B,20220131100000000,5,1,250.5,10,,").unwrap();
    assert_eq!(log.no, 12);
    assert_eq!(log.seccode, "SBER");
    assert_eq!(log.buysell, Side::Buy);
    assert_eq!(log.orderno, 5);
    assert_eq!(log.action, Action::Add);
    assert_eq!(log.volume, 10);
    assert_eq!(log.time.year, 2022);
    assert_eq!(log.time.secs, 10 * 3600);
    match log.price {
        Price::Limit(d) => {
            assert_eq!(d.mantissa(), 2505);
            assert_eq!(d.scale(), 1);
        }
        Price::Market => panic!("expected a limit"),
    }
}

#[test]
fn equity_add_row_of_the_documented_layout() {
    let log = EquityOrderLog::new("1,ALRS,S,20220131070000000,1,1,119.79,1600,,").unwrap();
    assert_eq!(log.no, 1);
    assert_eq!(log.seccode, "ALRS");
    assert_eq!(log.buysell, Side::Sell);
    assert_eq!(log.orderno, 1);
    assert_eq!(log.action, Action::Add);
    assert_eq!(log.price, Price::Limit(Decimal::from_str("119.79").unwrap()));
    assert_eq!(log.volume, 1600);
    assert_eq!(log.time.secs, 7 * 3600);
}

#[test]
fn equity_market_order() {
    let log = EquityOrderLog::new("12,SBER,S,20220131100000000,5,0,0,10,,").unwrap();
    assert_eq!(log.price, Price::Market);
    assert_eq!(log.action, Action::Cancel);
    assert_eq!(log.volume, 10);
    // a price that does not read as a decimal rejects the line
    assert!(EquityOrderLog::new("12,SBER,S,20220131100000000,5,0,x,10,,").is_none());
}

#[test]
fn equity_trade() {
    let log = EquityOrderLog::new("1,ALRS,S,20220131070000000,5,2,100,3,77,100").unwrap();
    assert_eq!(log.orderno, 5);
    assert_eq!(log.price, Price::Limit(Decimal::from_str("100").unwrap()));
    assert_eq!(log.volume, 3);
    match log.action {
        Action::Trade(t) => {
            assert_eq!(t.id, 77);
            assert_eq!(t.price.mantissa(), 100);
            assert_eq!(t.price.scale(), 0);
        }
        other => panic!("expected a trade, got {other:?}"),
    }
}

#[test]
fn equity_rejects_short_lines() {
    assert!(EquityOrderLog::new("12,SBER,S,20220131100000000,5,0,0,10").is_none());
    // a trade needs its trade price
    assert!(EquityOrderLog::new("12,SBER,S,20220131100000000,5,2,1,10,77").is_none());
}
