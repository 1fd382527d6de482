use vstd::prelude::*;
use crate::AssetClass;

verus! {

/// The instrument that an order book trades.
#[derive(Hash, PartialEq, Eq, Clone, Default, Debug)]
pub struct OrderBookId {
    pub name: String,
    pub asset_class: AssetClass,
}

impl OrderBookId {
    /// Whether `self` and `other` name the same instrument.
    pub fn same_as(&self, other: &OrderBookId) -> (r: bool)
        ensures
            r == (self.name@ == other.name@ && self.asset_class == other.asset_class),
    {
        self.name == other.name && self.asset_class == other.asset_class
    }
}

} // verus!
