use vstd::prelude::*;
use crate::decimal::{decimal_from_str, decimal_of};
use crate::derivative_type::derivative_type_from_code;
use crate::parse::{log_action, read_log_action};
use crate::side::side_from_code;
use crate::text::{chars_of, fields, parse_i64, parse_i64_spec, split_fields, string_from_chars, texts};
use crate::time::{naive_datetime_parse, timestamp_from_parts, DateTime, TIMESTAMP_FORMAT};
use crate::{Action, Decimal, DerivativeType, Price, Side};

verus! {

/// One line of a derivatives order log:
/// `SYMBOL,SYSTEM,TYPE,MOMENT,ID,ACTION,PRICE,VOLUME,ID_DEAL,PRICE_DEAL`.
#[derive(Debug, Clone)]
pub struct DerivativeOrderLog {
    /// time/moment
    pub timestamp: DateTime,
    /// BUYSELL/TYPE
    pub side: Side,
    /// ORDERNO | ID
    pub id: i64,
    pub action: Action,
    pub price: Price,
    pub volume: i64,
    pub name: String,
    pub derivative_type: DerivativeType,
}

/// A derivatives order log line with the symbol as its characters.
pub struct DerivativeOrderLogView {
    pub timestamp: DateTime,
    pub side: Side,
    pub id: i64,
    pub action: Action,
    pub price: Price,
    pub volume: i64,
    pub name: Seq<char>,
    pub derivative_type: DerivativeType,
}

impl View for DerivativeOrderLog {
    type V = DerivativeOrderLogView;

    open spec fn view(&self) -> DerivativeOrderLogView {
        DerivativeOrderLogView {
            timestamp: self.timestamp,
            side: self.side,
            id: self.id,
            action: self.action,
            price: self.price,
            volume: self.volume,
            name: self.name@,
            derivative_type: self.derivative_type,
        }
    }
}

/// The price of a derivatives order: a limit where the price field reads as
/// a number, the market price otherwise.
pub open spec fn derivative_price(decimal: Option<Decimal>) -> Price {
    match decimal {
        Some(d) => Price::Limit(d),
        None => Price::Market,
    }
}

/// The derivatives order log line with the fields `f`, whose moment field
/// has been read as `moment` and whose price field as `price`.
pub open spec fn derivative_order_log_from_fields(
    f: Seq<Seq<char>>,
    moment: Option<DateTime>,
    price: Price,
) -> Option<DerivativeOrderLogView> {
    if f.len() < 9 {
        None
    } else {
        match (
            derivative_type_from_code(f[1]),
            side_from_code(f[2]),
            moment,
            parse_i64_spec(f[4]),
            parse_i64_spec(f[7]),
            log_action(f[5], f.subrange(8, f.len() as int)),
        ) {
            (Ok(derivative_type), Ok(side), Some(timestamp), Some(id), Some(volume), Some(action)) => {
                Some(
                    DerivativeOrderLogView {
                        timestamp,
                        side,
                        id,
                        action,
                        price,
                        volume,
                        name: f[0],
                        derivative_type,
                    },
                )
            },
            _ => None,
        }
    }
}

/// What reading the derivatives order log line `s` gives.
pub open spec fn derivative_order_log_outcome(s: Seq<char>) -> Option<DerivativeOrderLogView> {
    let f = fields(s);
    derivative_order_log_from_fields(
        f,
        if f.len() >= 4 {
            timestamp_from_parts(naive_datetime_parse(f[3], TIMESTAMP_FORMAT@))
        } else {
            None
        },
        if f.len() >= 7 {
            derivative_price(decimal_of(decimal_from_str(f[6])))
        } else {
            Price::Market
        },
    )
}

/// What reading a derivatives order log line gives for its type: the one its
/// SYSTEM field (the second) names, `F` a future, `C` a call option and `P`
/// a put option; a line whose SYSTEM field is none of these does not read.
pub proof fn lemma_derivative_order_log_type(s: Seq<char>)
    ensures
        (match derivative_order_log_outcome(s) {
            Some(v) => {
                let code = fields(s)[1];
                &&& (v.derivative_type == DerivativeType::Future <==> code == seq!['F'])
                &&& (v.derivative_type == DerivativeType::Call <==> code == seq!['C'])
                &&& (v.derivative_type == DerivativeType::Put <==> code == seq!['P'])
            },
            None => true,
        }),
        fields(s).len() >= 2 && fields(s)[1] != seq!['F'] && fields(s)[1] != seq!['C'] && fields(s)[1] != seq!['P']
            ==> derivative_order_log_outcome(s) is None,
{
    assert(seq!['F'] != seq!['C'] && seq!['F'] != seq!['P'] && seq!['C'] != seq!['P']) by {
        assert(seq!['F'][0] != seq!['C'][0] && seq!['F'][0] != seq!['P'][0] && seq!['C'][0] != seq!['P'][0]);
    }
}

/// Which field of a derivatives order log line gives which part of the
/// order: SYMBOL is the first, TYPE the third (`B` buys, `S` sells), MOMENT
/// the fourth, ID the fifth, PRICE the seventh (a limit where it reads as a
/// number, the market price otherwise) and VOLUME the eighth. The action
/// comes from ACTION (the sixth) and ID_DEAL (the ninth): an empty ID_DEAL
/// with `0` cancels and with `1` adds; anything else is a trade with ID_DEAL
/// for its id and PRICE_DEAL (the tenth) for its price.
pub proof fn lemma_derivative_order_log_fields(s: Seq<char>)
    ensures
        (match derivative_order_log_outcome(s) {
            Some(v) => {
                let f = fields(s);
                &&& f.len() >= 9
                &&& v.name == f[0]
                &&& (v.side == Side::Buy <==> f[2] == seq!['B'])
                &&& (v.side == Side::Sell <==> f[2] == seq!['S'])
                &&& timestamp_from_parts(naive_datetime_parse(f[3], TIMESTAMP_FORMAT@)) == Some(v.timestamp)
                &&& parse_i64_spec(f[4]) == Some(v.id)
                &&& (match decimal_from_str(f[6]) {
                    Some((m, sc)) => v.price == Price::Limit(Decimal::spec_new(m, sc)),
                    None => v.price == Price::Market,
                })
                &&& parse_i64_spec(f[7]) == Some(v.volume)
                &&& (v.action == Action::Cancel <==> f[8].len() == 0 && f[5] == seq!['0'])
                &&& (v.action == Action::Add <==> f[8].len() == 0 && f[5] == seq!['1'])
                &&& (v.action matches Action::Trade(t) ==> {
                    &&& f.len() >= 10
                    &&& parse_i64_spec(f[8]) == Some(t.id)
                    &&& (parse_i64_spec(f[9]) matches Some(pr) && t.price == Decimal::spec_new(pr as i128, 0))
                })
            },
            None => true,
        }),
{
    assert(seq!['0'] != seq!['1'] && seq!['B'] != seq!['S']) by {
        assert(seq!['0'][0] != seq!['1'][0] && seq!['B'][0] != seq!['S'][0]);
    }
}

impl Price {
    /// Reads the price field of a derivatives order log line: a limit where
    /// it reads as a number, the market price otherwise.
    pub fn from_derivative_field(n: &Vec<char>) -> (r: Price)
        ensures
            r == derivative_price(decimal_of(decimal_from_str(n@))),
    {
        match Decimal::parse_chars(n) {
            Some(d) => Price::Limit(d),
            None => Price::Market,
        }
    }
}

impl DerivativeOrderLog {
    /// Builds the derivatives order log line with the fields `f`, whose moment
    /// field has been read as `moment` and whose price field as `price`.
    pub fn from_fields(f: &Vec<Vec<char>>, moment: Option<DateTime>, price: Price) -> (r: Option<
        DerivativeOrderLog,
    >)
        ensures
            (match r {
                Some(log) => derivative_order_log_from_fields(texts(f@), moment, price) == Some(log@),
                None => derivative_order_log_from_fields(texts(f@), moment, price) is None,
            }),
    {
        let ghost tf = texts(f@);
        if f.len() < 9 {
            return None;
        }
        assert(tf[0] == f@[0]@ && tf[1] == f@[1]@ && tf[2] == f@[2]@ && tf[4] == f@[4]@);
        assert(tf[5] == f@[5]@ && tf[7] == f@[7]@);
        assert(tf.subrange(8, tf.len() as int) == texts(f@).subrange(8, f@.len() as int));
        let symbol = &f[0];
        let system = match DerivativeType::from_chars(&f[1]) {
            Ok(t) => t,
            Err(_) => {
                return None;
            },
        };
        let side = match Side::from_chars(&f[2]) {
            Ok(s) => s,
            Err(_) => {
                return None;
            },
        };
        let timestamp = match moment {
            Some(t) => t,
            None => {
                return None;
            },
        };
        let id = match parse_i64(&f[4]) {
            Some(id) => id,
            None => {
                return None;
            },
        };
        let volume = match parse_i64(&f[7]) {
            Some(v) => v,
            None => {
                return None;
            },
        };
        let action = match read_log_action(&f[5], f, 8) {
            Some(a) => a,
            None => {
                return None;
            },
        };
        Some(
            DerivativeOrderLog {
                name: string_from_chars(symbol),
                derivative_type: system,
                side,
                action,
                price,
                volume,
                timestamp,
                id,
            },
        )
    }

    /// Reads a derivatives order log line; `None` where a field is missing
    /// or does not read.
    pub fn new(s: &str) -> (r: Option<DerivativeOrderLog>)
        ensures
            (match r {
                Some(log) => derivative_order_log_outcome(s@) == Some(log@),
                None => derivative_order_log_outcome(s@) is None,
            }),
    {
        let chars = chars_of(s);
        let f = split_fields(&chars);
        let moment = if f.len() >= 4 {
            assert(texts(f@)[3] == f@[3]@);
            DateTime::parse_timestamp(&f[3])
        } else {
            None
        };
        let price = if f.len() >= 7 {
            assert(texts(f@)[6] == f@[6]@);
            Price::from_derivative_field(&f[6])
        } else {
            Price::Market
        };
        DerivativeOrderLog::from_fields(&f, moment, price)
    }
}

impl Default for DerivativeOrderLog {
    /// An empty order to buy a call, added at the market price at the latest
    /// moment that can be written.
    fn default() -> (r: DerivativeOrderLog)
        ensures
            r.timestamp == (DateTime { year: 262142, ordinal: 365, secs: 86399, frac: 999_999_999 }),
            r.side == Side::Buy,
            r.id == 0,
            r.action == Action::Add,
            r.price == Price::Market,
            r.volume == 0,
            r.name@ == Seq::<char>::empty(),
            r.derivative_type == DerivativeType::Call,
    {
        DerivativeOrderLog {
            timestamp: DateTime::max_value(),
            side: Side::Buy,
            id: 0,
            action: Action::Add,
            price: Price::Market,
            volume: 0,
            name: String::new(),
            derivative_type: DerivativeType::Call,
        }
    }
}

} // verus!
