use moex_order_book::{Action, DateTime, DerivativeOrderLog, DerivativeType, Price, Side};

#[test]
fn add() {
    let opts = DerivativeOrderLog::new(
        "Si73750BC2,C,B,20220131185256610,1892947028292403201,1,1.00000,1,,",
    );
    println!("{opts:#?}");
    assert!(opts.is_some());
}

#[test]
fn derivative_fields() {
    let log = DerivativeOrderLog::new(
        "Si73750BC2,C,B,20220131185256610,1892947028292403201,1,1.00000,1,,",
    )
    .unwrap();
    assert_eq!(log.name, "Si73750BC2");
    assert_eq!(log.derivative_type, DerivativeType::Call);
    assert_eq!(log.side, Side::Buy);
    assert_eq!(log.id, 1892947028292403201);
    assert_eq!(log.action, Action::Add);
    assert_eq!(log.volume, 1);
    assert_eq!(log.timestamp.year, 2022);
    assert_eq!(log.timestamp.ordinal, 31);
    assert_eq!(log.timestamp.secs, 18 * 3600 + 52 * 60 + 56);
    match log.price {
        Price::Limit(d) => {
            assert_eq!(d.mantissa(), 100000);
            assert_eq!(d.scale(), 5);
        }
        Price::Market => panic!("expected a limit"),
    }
}

#[test]
fn derivative_price_that_does_not_read_is_market() {
    let log = DerivativeOrderLog::new("RIH2,F,S,20220131185256610,7,0,,3,,").unwrap();
    assert_eq!(log.price, Price::Market);
    assert_eq!(log.action, Action::Cancel);
    assert_eq!(log.derivative_type, DerivativeType::Future);
    assert_eq!(log.side, Side::Sell);
}

#[test]
fn derivative_trade() {
    let log = DerivativeOrderLog::new("RIH2,P,S,20220131185256610,7,2,100,3,99,101").unwrap();
    match log.action {
        Action::Trade(t) => {
            assert_eq!(t.id, 99);
            assert_eq!(t.price.mantissa(), 101);
            assert_eq!(t.price.scale(), 0);
        }
        other => panic!("expected a trade, got {other:?}"),
    }
    // a trade price that is not a whole number
    assert!(DerivativeOrderLog::new("RIH2,P,S,20220131185256610,7,2,100,3,99,10.5").is_none());
}

#[test]
fn derivative_rejects_bad_lines() {
    assert!(DerivativeOrderLog::new("RIH2,X,S,20220131185256610,7,1,100,3,,").is_none());
    assert!(DerivativeOrderLog::new("RIH2,F,S,notatime,7,1,100,3,,").is_none());
    assert!(DerivativeOrderLog::new("RIH2,F,S,20220131185256610,7,1,100").is_none());
}

#[test]
fn derivative_default() {
    let d = DerivativeOrderLog::default();
    assert_eq!(
        d.timestamp,
        DateTime { year: 262142, ordinal: 365, secs: 86399, frac: 999_999_999 }
    );
    assert_eq!(d.side, Side::Buy);
    assert_eq!(d.action, Action::Add);
    assert_eq!(d.price, Price::Market);
    assert_eq!(d.derivative_type, DerivativeType::Call);
    assert_eq!(d.name, "");
}
