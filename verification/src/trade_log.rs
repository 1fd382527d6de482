use vstd::prelude::*;
use crate::Decimal;

verus! {

/// The deal that executed an order.
#[derive(Debug, Clone, Copy, PartialEq, Eq)]
pub struct TradeLog {
    /// price the order was executed at
    /// TRADEPRICE/PRICE_DEAL
    pub price: Decimal,
    /// ID_DEAL/TRADENO
    pub id: i64,
}

impl Default for TradeLog {
    /// The deal with id zero at the price zero.
    fn default() -> (r: TradeLog)
        ensures
            r.price == Decimal::spec_new(0, 0),
            r.id == 0,
    {
        TradeLog { price: Decimal::default(), id: 0 }
    }
}

} // verus!
