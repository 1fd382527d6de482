use chrono::NaiveTime;
use moex_order_book::{Action, OrderLog, ParseOutcome, Price, Side, TimeOfDay};

fn naive(t: TimeOfDay) -> NaiveTime {
    NaiveTime::from_num_seconds_from_midnight_opt(t.secs, t.frac).unwrap()
}

#[test]
fn log_parse() {
    let s = [
        "1,ALRS,S,70000000000,1,1,119.79,1600,,",
        "2,ATVI-RM,S,70000000000,2,1,6499,14,,",
        "3,FB-RM,B,70000000000,3,1,17835,1,,",
        "4,TATNP,S,70000000000,4,1,448.6,1,,",
        "5,VIPS-RM,S,70000000000,5,1,750,50,,",
        "6,IRAO,S,70000000000,6,1,3.844,2600,,",
        "7,AFKS,S,70000000000,7,1,20.122,800,,",
        "8,HYDR,B,70000000000,8,1,0.7,50000,,",
        "9,HYDR,B,70000000000,9,1,0.71,25000,,",
    ];
    for i in s {
        let o = OrderLog::new(i).map(|i| naive(i.time));
        assert!(o == NaiveTime::from_hms_micro_opt(7, 0, 0, 0), "{o:#?}");
    }

    let s = [
        "43309004,MRKP,B,235900000000,20744492,2,0.219,470000,4961540585,0.219",
        "43309005,MRKP,S,235900000000,20744457,2,0.219,470000,4961540585,0.219",
        "43309006,CHMF,B,235900000000,20744496,2,1556,1,4961540586,1556",
        "43309007,CHMF,S,235900000000,20744215,2,1556,1,4961540586,1556",
        "43309008,FXGD,B,235900000000,20743561,2,92.21,6,4961540587,92.21",
        "43309009,FXGD,S,235900000000,20744166,2,92.21,6,4961540587,92.21",
        "43309010,FXRE,B,235900000000,20743125,2,73.84,1,4961540588,73.84",
        "43309011,FXRE,S,235900000000,20744106,2,73.84,1,4961540588,73.84",
        "43309012,GAZP,B,235900000000,20744511,2,320.89,200,4961540589,320.89",
        "43309013,GAZP,S,235900000000,20744133,2,320.89,200,4961540589,320.89",
    ];

    for i in s {
        if let Some(i) = OrderLog::new(i) {
            assert!(Some(naive(i.time)) == NaiveTime::from_hms_opt(23, 59, 0));
        };
    }

    let o = OrderLog::new("41008412,TRUR,S,182808328809,15691327,2,6.02,5,4961481031,6.02")
        .map(|i| naive(i.time));
    assert!(
        o == NaiveTime::from_hms_micro_opt(18, 28, 8, 328809),
        "{o:#?}"
    );

    let o = OrderLog::new("41008406,K-RM,B,182808327717,19676999,0,4650,180,,").map(|i| naive(i.time));
    assert!(
        o == NaiveTime::from_hms_micro_opt(18, 28, 8, 327717),
        "{o:#?}"
    );

    let o = OrderLog::new("2897654,GE-RM,B,100000435125,1447971,1,7441,100,,").map(|i| naive(i.time));
    assert!(
        o == NaiveTime::from_hms_micro_opt(10, 0, 0, 435125),
        "{o:#?}"
    );

    let o = OrderLog::new("2897654,GE-RM,B,93239262824,1447971,1,7441,100,,").map(|i| naive(i.time));
    assert!(
        o == NaiveTime::from_hms_micro_opt(9, 32, 39, 262824),
        "{o:#?}"
    );
}

#[test]
fn order_log_fields_of_an_addition() {
    let log = OrderLog::new("1,ALRS,S,70000000000,17,1,119.79,1600,,").unwrap();
    assert_eq!(log.no, 1);
    assert_eq!(log.seccode, "ALRS");
    assert_eq!(log.buysell, Side::Sell);
    assert_eq!(log.orderno, 17);
    assert_eq!(log.action, Action::Add);
    assert_eq!(log.volume, 1600);
    match log.price {
        Price::Limit(d) => {
            assert_eq!(d.mantissa(), 11979);
            assert_eq!(d.scale(), 2);
        }
        Price::Market => panic!("expected a limit price"),
    }
}

#[test]
fn order_log_market_price_and_trade() {
    let log = OrderLog::new("41008412,TRUR,S,182808328809,15691327,2,0,5,4961481031,6.02").unwrap();
    assert_eq!(log.price, Price::Market);
    match log.action {
        Action::Trade(t) => {
            assert_eq!(t.id, 4961481031);
            assert_eq!(t.price.mantissa(), 602);
            assert_eq!(t.price.scale(), 2);
        }
        other => panic!("expected a trade, got {other:?}"),
    }
}

#[test]
fn order_log_cancel() {
    let log = OrderLog::new("41008406,K-RM,B,182808327717,19676999,0,4650,180,,").unwrap();
    assert_eq!(log.action, Action::Cancel);
    assert_eq!(log.buysell, Side::Buy);
}

#[test]
fn order_log_rejects_bad_lines() {
    // too few fields
    assert!(OrderLog::new("1,ALRS,S,70000000000,1,1,119.79").is_none());
    // a side that is neither B nor S
    assert!(OrderLog::new("1,ALRS,X,70000000000,1,1,119.79,1600,,").is_none());
    // a minute of 99
    assert!(OrderLog::new("1,ALRS,S,79900000000,1,1,119.79,1600,,").is_none());
    // a number that does not read
    assert!(OrderLog::new("1x,ALRS,S,70000000000,1,1,119.79,1600,,").is_none());
    // a price that does not read
    assert!(OrderLog::new("1,ALRS,S,70000000000,1,1,abc,1600,,").is_none());
    // a trade without a trade price
    assert!(OrderLog::new("1,ALRS,S,70000000000,1,2,119.79,1600,55").is_none());
}

#[test]
fn order_log_contradictory_lines() {
    // a trade id under the action code 1
    let line = "1,ALRS,S,70000000000,1,1,119.79,1600,55,119.79";
    assert!(OrderLog::checked_new(line).is_none());
    // an empty trade id under an unknown action code
    assert!(OrderLog::checked_new("1,ALRS,S,70000000000,1,3,119.79,1600,,").is_none());
    // a line that reads
    let ok = OrderLog::checked_new("1,ALRS,S,70000000000,1,1,119.79,1600,,");
    assert!(matches!(ok, Some(Some(_))));
    // a line that is rejected, not contradictory
    assert!(matches!(OrderLog::checked_new("1,ALRS"), Some(None)));
}

#[test]
fn order_log_from_fields_takes_the_prices_given() {
    let f: Vec<Vec<char>> = "1,ALRS,S,70000000000,1,1,119.79,1600,,"
        .split(',')
        .map(|x| x.chars().collect())
        .collect();
    match OrderLog::from_fields(&f, Some(Price::Market), None) {
        ParseOutcome::Parsed(log) => assert_eq!(log.price, Price::Market),
        _ => panic!("expected a parsed line"),
    }
    assert!(matches!(OrderLog::from_fields(&f, None, None), ParseOutcome::Rejected));
}

#[test]
fn time_of_day_from_log_digits() {
    let t = TimeOfDay::from_log_digits(93239262824).unwrap();
    assert_eq!(t.secs, 9 * 3600 + 32 * 60 + 39);
    assert_eq!(t.frac, 262824000);
    let t = TimeOfDay::from_log_digits(235959999999).unwrap();
    assert_eq!(t.secs, 86399);
    assert_eq!(t.frac, 999999000);
    assert!(TimeOfDay::from_log_digits(240000000000).is_none());
    assert!(TimeOfDay::from_log_digits(106000000000).is_none());
    assert_eq!(TimeOfDay::from_log_digits(0), TimeOfDay::from_hms_micro_opt(0, 0, 0, 0));
}

#[test]
fn time_of_day_leap_second() {
    assert!(TimeOfDay::from_hms_micro_opt(23, 59, 59, 1_500_000).is_some());
    assert!(TimeOfDay::from_hms_micro_opt(23, 59, 58, 1_500_000).is_none());
    assert!(TimeOfDay::from_hms_micro_opt(24, 0, 0, 0).is_none());
}

#[test]
fn default_order_log_is_empty() {
    let log = OrderLog::default();
    assert_eq!(log.no, 0);
    assert_eq!(log.seccode, "");
    assert_eq!(log.buysell, Side::Buy);
    assert_eq!(log.time, TimeOfDay { secs: 0, frac: 0 });
    assert_eq!(log.orderno, 0);
    assert_eq!(log.action, Action::Cancel);
    assert_eq!(log.price, Price::Market);
    assert_eq!(log.volume, 0);
}
