use vstd::prelude::*;
use crate::decimal::{decimal_from_str, decimal_of};
use crate::parse::{log_action, read_log_action};
use crate::side::side_from_code;
use crate::text::{
    chars_of, fields, is_char_text, parse_i64, parse_i64_spec, parse_u64, parse_u64_spec,
    split_fields, string_from_chars, texts,
};
use crate::time::{naive_datetime_parse, timestamp_from_parts, DateTime, TIMESTAMP_FORMAT};
use crate::{Action, Decimal, Price, Side};

verus! {

/// One line of an equity order log with full timestamps:
/// `NO,SECCODE,BUYSELL,TIME,ORDERNO,ACTION,PRICE,VOLUME,TRADENO,TRADEPRICE`,
/// where `PRICE` is `0` for a market order and a decimal limit otherwise.
pub struct EquityOrderLog {
    pub no: u64,
    pub seccode: String,
    pub buysell: Side,
    pub time: DateTime,
    pub orderno: u64,
    pub action: Action,
    pub price: Price,
    pub volume: i64,
}

/// An equity order log line with the security code as its characters.
pub struct EquityOrderLogView {
    pub no: u64,
    pub seccode: Seq<char>,
    pub buysell: Side,
    pub time: DateTime,
    pub orderno: u64,
    pub action: Action,
    pub price: Price,
    pub volume: i64,
}

impl View for EquityOrderLog {
    type V = EquityOrderLogView;

    open spec fn view(&self) -> EquityOrderLogView {
        EquityOrderLogView {
            no: self.no,
            seccode: self.seccode@,
            buysell: self.buysell,
            time: self.time,
            orderno: self.orderno,
            action: self.action,
            price: self.price,
            volume: self.volume,
        }
    }
}

/// The equity order log line with the fields `f`, whose timestamp field has
/// been read as `time` and whose price field as `decimal`.
pub open spec fn equity_order_log_from_fields(
    f: Seq<Seq<char>>,
    time: Option<DateTime>,
    decimal: Option<Decimal>,
) -> Option<EquityOrderLogView> {
    if f.len() < 9 {
        None
    } else {
        match (
            parse_u64_spec(f[0]),
            side_from_code(f[2]),
            time,
            parse_u64_spec(f[4]),
            decimal,
            parse_i64_spec(f[7]),
            log_action(f[5], f.subrange(8, f.len() as int)),
        ) {
            (Some(no), Ok(buysell), Some(time), Some(orderno), Some(d), Some(volume), Some(action)) => {
                Some(
                    EquityOrderLogView {
                        no,
                        seccode: f[1],
                        buysell,
                        time,
                        orderno,
                        action,
                        price: if f[6] == seq!['0'] {
                            Price::Market
                        } else {
                            Price::Limit(d)
                        },
                        volume,
                    },
                )
            },
            _ => None,
        }
    }
}

/// What reading the equity order log line `s` gives.
pub open spec fn equity_order_log_outcome(s: Seq<char>) -> Option<EquityOrderLogView> {
    let f = fields(s);
    equity_order_log_from_fields(
        f,
        if f.len() >= 4 {
            timestamp_from_parts(naive_datetime_parse(f[3], TIMESTAMP_FORMAT@))
        } else {
            None
        },
        if f.len() >= 7 {
            decimal_of(decimal_from_str(f[6]))
        } else {
            None
        },
    )
}

/// What reading an equity order log line gives for its price: the price
/// field (the seventh) is the market price exactly when it is the text `0`,
/// and otherwise the limit that `rust_decimal` reads from it.
pub proof fn lemma_equity_order_log_price(s: Seq<char>)
    ensures
        (match equity_order_log_outcome(s) {
            Some(v) => {
                let f = fields(s);
                &&& (v.price == Price::Market <==> f[6] == seq!['0'])
                &&& (f[6] != seq!['0'] ==> (decimal_from_str(f[6]) matches Some((m, sc)) && v.price == Price::Limit(
                    Decimal::spec_new(m, sc),
                )))
            },
            None => true,
        }),
{
}

/// Which field of an equity order log line gives which part of the order:
/// NO is the first, SECCODE the second, BUYSELL the third (`B` buys, `S`
/// sells), TIME the fourth, ORDERNO the fifth and VOLUME the eighth. The
/// action comes from ACTION (the sixth) and TRADENO (the ninth): an empty
/// TRADENO with `0` cancels and with `1` adds; anything else is a trade with
/// TRADENO for its id and TRADEPRICE (the tenth) for its price.
pub proof fn lemma_equity_order_log_fields(s: Seq<char>)
    ensures
        (match equity_order_log_outcome(s) {
            Some(v) => {
                let f = fields(s);
                &&& f.len() >= 9
                &&& parse_u64_spec(f[0]) == Some(v.no)
                &&& v.seccode == f[1]
                &&& (v.buysell == Side::Buy <==> f[2] == seq!['B'])
                &&& (v.buysell == Side::Sell <==> f[2] == seq!['S'])
                &&& timestamp_from_parts(naive_datetime_parse(f[3], TIMESTAMP_FORMAT@)) == Some(v.time)
                &&& parse_u64_spec(f[4]) == Some(v.orderno)
                &&& parse_i64_spec(f[7]) == Some(v.volume)
                &&& (v.action == Action::Cancel <==> f[8].len() == 0 && f[5] == seq!['0'])
                &&& (v.action == Action::Add <==> f[8].len() == 0 && f[5] == seq!['1'])
                &&& (v.action matches Action::Trade(t) ==> {
                    &&& f.len() >= 10
                    &&& parse_i64_spec(f[8]) == Some(t.id)
                    &&& (parse_i64_spec(f[9]) matches Some(pr) && t.price == Decimal::spec_new(pr as i128, 0))
                })
            },
            None => true,
        }),
{
    assert(seq!['0'] != seq!['1'] && seq!['B'] != seq!['S']) by {
        assert(seq!['0'][0] != seq!['1'][0] && seq!['B'][0] != seq!['S'][0]);
    }
}

impl EquityOrderLog {
    /// Builds the equity order log line with the fields `f`, whose timestamp
    /// field has been read as `time` and whose price field as `decimal`.
    pub fn from_fields(f: &Vec<Vec<char>>, time: Option<DateTime>, decimal: Option<Decimal>) -> (r:
        Option<EquityOrderLog>)
        ensures
            (match r {
                Some(log) => equity_order_log_from_fields(texts(f@), time, decimal) == Some(log@),
                None => equity_order_log_from_fields(texts(f@), time, decimal) is None,
            }),
    {
        let ghost tf = texts(f@);
        if f.len() < 9 {
            return None;
        }
        assert(tf[0] == f@[0]@ && tf[1] == f@[1]@ && tf[2] == f@[2]@ && tf[4] == f@[4]@);
        assert(tf[5] == f@[5]@ && tf[6] == f@[6]@ && tf[7] == f@[7]@);
        let no = match parse_u64(&f[0]) {
            Some(no) => no,
            None => {
                return None;
            },
        };
        let seccode = string_from_chars(&f[1]);
        let buysell = match Side::from_chars(&f[2]) {
            Ok(side) => side,
            Err(_) => {
                return None;
            },
        };
        let time = match time {
            Some(t) => t,
            None => {
                return None;
            },
        };
        let orderno = match parse_u64(&f[4]) {
            Some(n) => n,
            None => {
                return None;
            },
        };
        let decimal = match decimal {
            Some(d) => d,
            None => {
                return None;
            },
        };
        let price = if is_char_text(&f[6], '0') {
            Price::Market
        } else {
            Price::Limit(decimal)
        };
        let volume = match parse_i64(&f[7]) {
            Some(v) => v,
            None => {
                return None;
            },
        };
        let action = match read_log_action(&f[5], f, 8) {
            Some(a) => a,
            None => {
                return None;
            },
        };
        Some(EquityOrderLog { no, seccode, buysell, time, orderno, action, price, volume })
    }

    /// Reads an equity order log line; `None` where a field is missing or
    /// does not read.
    pub fn new(s: &str) -> (r: Option<EquityOrderLog>)
        ensures
            (match r {
                Some(log) => equity_order_log_outcome(s@) == Some(log@),
                None => equity_order_log_outcome(s@) is None,
            }),
    {
        let chars = chars_of(s);
        let f = split_fields(&chars);
        let time = if f.len() >= 4 {
            assert(texts(f@)[3] == f@[3]@);
            DateTime::parse_timestamp(&f[3])
        } else {
            None
        };
        let decimal = if f.len() >= 7 {
            assert(texts(f@)[6] == f@[6]@);
            Decimal::parse_chars(&f[6])
        } else {
            None
        };
        EquityOrderLog::from_fields(&f, time, decimal)
    }
}

} // verus!
