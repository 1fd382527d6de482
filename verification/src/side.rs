use vstd::prelude::*;
use crate::text::{chars_of, is_char_text};

verus! {

/// The direction of an order.
#[derive(Debug, Clone, Copy, PartialEq, Eq, Structural)]
pub enum Side {
    Buy,
    Sell,
}

/// The side that an exchange code names: `B` buys and `S` sells; any other
/// text is refused.
pub open spec fn side_from_code(s: Seq<char>) -> Result<Side, ()> {
    if s == seq!['B'] {
        Ok(Side::Buy)
    } else if s == seq!['S'] {
        Ok(Side::Sell)
    } else {
        Err(())
    }
}

impl Side {
    /// Reads a side from its exchange code.
    pub fn from_str(s: &str) -> (r: Result<Side, ()>)
        ensures
            r == side_from_code(s@),
    {
        let chars = chars_of(s);
        Side::from_chars(&chars)
    }

    /// Reads a side from the characters of its exchange code.
    pub fn from_chars(s: &Vec<char>) -> (r: Result<Side, ()>)
        ensures
            r == side_from_code(s@),
    {
        if is_char_text(s, 'B') {
            Ok(Side::Buy)
        } else if is_char_text(s, 'S') {
            Ok(Side::Sell)
        } else {
            Err(())
        }
    }
}

impl std::str::FromStr for Side {
    type Err = ();

    /// Reads a side from its exchange code, as `Side::from_str` does.
    fn from_str(s: &str) -> (r: Result<Side, ()>)
        ensures
            r == side_from_code(s@),
    {
        Side::from_str(s)
    }
}

impl Side {
    /// The other side.
    pub open spec fn opposite(self) -> Side {
        match self {
            Side::Buy => Side::Sell,
            Side::Sell => Side::Buy,
        }
    }
}

impl Default for Side {
    /// Buying.
    fn default() -> (r: Side)
        ensures
            r == Side::Buy,
    {
        Side::Buy
    }
}

} // verus!
