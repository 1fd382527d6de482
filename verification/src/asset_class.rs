use vstd::prelude::*;

verus! {

/// The kind of instruments that an order book trades.
#[derive(Debug, Clone, Copy, PartialEq, Eq, Structural, Hash)]
pub enum AssetClass {
    Equity,
    Derivative,
}

impl Default for AssetClass {
    /// Equities.
    fn default() -> (r: AssetClass)
        ensures
            r == AssetClass::Equity,
    {
        AssetClass::Equity
    }
}

} // verus!
