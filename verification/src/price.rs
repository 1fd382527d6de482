use vstd::prelude::*;
use crate::Decimal;

verus! {

/// The price of an order: a limit, or the market price.
#[derive(Debug, Clone, Copy, PartialEq, Eq)]
pub enum Price {
    Limit(Decimal),
    Market,
}

impl Price {
    /// The limit of a limit order.
    pub fn as_limit(&self) -> (r: Option<&Decimal>)
        ensures
            r == (match *self {
                Price::Limit(d) => Some(&d),
                Price::Market => None,
            }),
    {
        match self {
            Price::Limit(d) => Some(d),
            _ => None,
        }
    }
}

impl Default for Price {
    /// The market price.
    fn default() -> (r: Price)
        ensures
            r == Price::Market,
    {
        Price::Market
    }
}

} // verus!
