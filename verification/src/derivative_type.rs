use vstd::prelude::*;
use crate::text::{chars_of, is_char_text};

verus! {

/// The trading system of a derivative: futures, call options or put options.
#[derive(Debug, Clone, Copy, PartialEq, Eq, Structural)]
pub enum DerivativeType {
    Future,
    Call,
    Put,
}

/// The derivative type that an exchange code names: `F`, `C` or `P`; any
/// other text is refused.
pub open spec fn derivative_type_from_code(s: Seq<char>) -> Result<DerivativeType, ()> {
    if s == seq!['F'] {
        Ok(DerivativeType::Future)
    } else if s == seq!['C'] {
        Ok(DerivativeType::Call)
    } else if s == seq!['P'] {
        Ok(DerivativeType::Put)
    } else {
        Err(())
    }
}

impl DerivativeType {
    /// Reads a derivative type from its exchange code.
    pub fn from_str(s: &str) -> (r: Result<DerivativeType, ()>)
        ensures
            r == derivative_type_from_code(s@),
    {
        let chars = chars_of(s);
        DerivativeType::from_chars(&chars)
    }

    /// Reads a derivative type from the characters of its exchange code.
    pub fn from_chars(s: &Vec<char>) -> (r: Result<DerivativeType, ()>)
        ensures
            r == derivative_type_from_code(s@),
    {
        if is_char_text(s, 'F') {
            Ok(DerivativeType::Future)
        } else if is_char_text(s, 'C') {
            Ok(DerivativeType::Call)
        } else if is_char_text(s, 'P') {
            Ok(DerivativeType::Put)
        } else {
            Err(())
        }
    }
}

} // verus!
