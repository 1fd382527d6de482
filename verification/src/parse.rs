use vstd::prelude::*;
use crate::text::{is_char_text, parse_i64, parse_i64_spec, texts};
use crate::{Action, Decimal, TradeLog};

verus! {

/// What reading one order log line comes to.
#[derive(Debug)]
pub enum ParseOutcome<T> {
    /// The line describes this order.
    Parsed(T),
    /// The line is missing a field or holds a field that does not read.
    Rejected,
    /// The line's action code and trade fields disagree: its trade id field
    /// is filled in (or the code is neither `0` nor `1`) while the code is not
    /// `2`.
    Contradictory,
}

/// The views of what reading a line comes to.
pub open spec fn outcome_view<T: View>(o: ParseOutcome<T>) -> ParseOutcome<T::V> {
    match o {
        ParseOutcome::Parsed(t) => ParseOutcome::Parsed(t@),
        ParseOutcome::Rejected => ParseOutcome::Rejected,
        ParseOutcome::Contradictory => ParseOutcome::Contradictory,
    }
}

/// The action that the action code `code` and the trade fields `rest` (the
/// trade id, then the trade price) describe: an empty trade id with the code
/// `0` cancels, with the code `1` adds; anything else is a trade, whose price
/// and id must read as whole numbers.
pub open spec fn log_action(code: Seq<char>, rest: Seq<Seq<char>>) -> Option<Action> {
    let trade_id = rest[0];
    if trade_id.len() == 0 && code == seq!['0'] {
        Some(Action::Cancel)
    } else if trade_id.len() == 0 && code == seq!['1'] {
        Some(Action::Add)
    } else if rest.len() < 2 {
        None
    } else {
        match (parse_i64_spec(rest[1]), parse_i64_spec(trade_id)) {
            (Some(price), Some(id)) => Some(Action::Trade(TradeLog { price: Decimal::spec_new(price as i128, 0), id })),
            _ => None,
        }
    }
}

/// Reads the action of a log line from its action code and the fields from
/// the trade id on.
pub fn read_log_action(code: &Vec<char>, f: &Vec<Vec<char>>, first: usize) -> (r: Option<Action>)
    requires
        first < f.len(),
    ensures
        r == log_action(code@, texts(f@).subrange(first as int, f@.len() as int)),
{
    let ghost rest = texts(f@).subrange(first as int, f@.len() as int);
    assert(rest[0] == f@[first as int]@);
    let trade_id = &f[first];
    if trade_id.len() == 0 && is_char_text(code, '0') {
        return Some(Action::Cancel);
    }
    if trade_id.len() == 0 && is_char_text(code, '1') {
        return Some(Action::Add);
    }
    if first + 1 >= f.len() {
        return None;
    }
    assert(rest[1] == f@[first + 1]@);
    let price = match parse_i64(&f[first + 1]) {
        Some(p) => p,
        None => {
            return None;
        },
    };
    let id = match parse_i64(trade_id) {
        Some(id) => id,
        None => {
            return None;
        },
    };
    Some(Action::Trade(TradeLog { price: Decimal::from_i64(price), id }))
}

} // verus!
