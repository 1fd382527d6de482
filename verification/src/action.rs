use vstd::prelude::*;
use crate::TradeLog;

verus! {

/// What an order log line does to its order.
#[derive(Debug, Clone, Copy, PartialEq, Eq)]
pub enum Action {
    Cancel,
    Add,
    Trade(TradeLog),
}

impl Default for Action {
    /// Cancelling.
    fn default() -> (r: Action)
        ensures
            r == Action::Cancel,
    {
        Action::Cancel
    }
}

} // verus!
