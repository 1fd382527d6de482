use moex_order_book::{Decimal, DecimalOrder, DerivativeType, Price, Side};

#[test]
fn side_codes() {
    assert_eq!(Side::from_str("B"), Ok(Side::Buy));
    assert_eq!(Side::from_str("S"), Ok(Side::Sell));
    assert_eq!(Side::from_str("b"), Err(()));
    assert_eq!(Side::from_str(""), Err(()));
    assert_eq!(Side::from_str("BS"), Err(()));
    assert_eq!(Side::default(), Side::Buy);
}

#[test]
fn derivative_type_codes() {
    assert_eq!(DerivativeType::from_str("F"), Ok(DerivativeType::Future));
    assert_eq!(DerivativeType::from_str("C"), Ok(DerivativeType::Call));
    assert_eq!(DerivativeType::from_str("P"), Ok(DerivativeType::Put));
    assert_eq!(DerivativeType::from_str("O"), Err(()));
}

#[test]
fn decimal_parts_and_order() {
    let a = Decimal::from_str("1.5").unwrap();
    let b = Decimal::from_str("1.50").unwrap();
    let c = Decimal::from_str("-1.49").unwrap();
    assert_eq!((a.mantissa(), a.scale()), (15, 1));
    assert_eq!((b.mantissa(), b.scale()), (150, 2));
    assert_eq!((c.mantissa(), c.scale()), (-149, 2));
    assert_eq!(a.compare(&b), DecimalOrder::Equal);
    assert_eq!(c.compare(&a), DecimalOrder::Less);
    assert_eq!(a.compare(&c), DecimalOrder::Greater);
    assert!(a == b);
    assert!(Decimal::from_str("x1").is_none());
}

#[test]
fn decimal_from_parts_bounds() {
    assert!(Decimal::from_parts(1, 28).is_some());
    assert!(Decimal::from_parts(1, 29).is_none());
    assert!(Decimal::from_parts(0xFFFF_FFFF_FFFF_FFFF_FFFF_FFFF, 0).is_some());
    assert!(Decimal::from_parts(0x1_0000_0000_0000_0000_0000_0000, 0).is_none());
    assert_eq!(Decimal::from_i64(-7).mantissa(), -7);
    assert_eq!(Decimal::default().mantissa(), 0);
}

#[test]
fn price_as_limit() {
    let d = Decimal::from_parts(1234, 2).unwrap();
    assert_eq!(Price::Limit(d).as_limit().map(|x| x.mantissa()), Some(1234));
    assert!(Price::Market.as_limit().is_none());
    assert_eq!(Price::default(), Price::Market);
}

#[test]
fn side_parses_through_from_str() {
    assert_eq!("S".parse::<Side>(), Ok(Side::Sell));
    assert_eq!("Q".parse::<Side>(), Err(()));
}
