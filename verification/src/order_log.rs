use vstd::prelude::*;
use vstd::arithmetic::div_mod::{
    lemma_fundamental_div_mod, lemma_fundamental_div_mod_converse, lemma_mod_breakdown, lemma_mod_bound, lemma_mod_mod,
};
use crate::decimal::{decimal_from_str, decimal_of};
use crate::parse::{outcome_view, ParseOutcome};
use crate::side::side_from_code;
use crate::text::{
    chars_of, fields, is_char_text, parse_i64, parse_i64_spec, parse_u64, parse_u64_spec,
    split_fields, string_from_chars, texts,
};
use crate::time::{time_from_hms_micro, TimeOfDay};
use crate::{Action, Decimal, Price, Side, TradeLog};

verus! {

/// One line of an equity order log:
/// `NO,SECCODE,BUYSELL,TIME,ORDERNO,ACTION,PRICE,VOLUME,TRADENO,TRADEPRICE`.
#[derive(Debug, Clone, PartialEq, Eq)]
pub struct OrderLog {
    pub no: u64,
    pub seccode: String,
    pub buysell: Side,
    pub time: TimeOfDay,
    pub orderno: u64,
    pub action: Action,
    pub price: Price,
    pub volume: i64,
}

/// An order log line with the security code as its characters.
pub struct OrderLogView {
    pub no: u64,
    pub seccode: Seq<char>,
    pub buysell: Side,
    pub time: TimeOfDay,
    pub orderno: u64,
    pub action: Action,
    pub price: Price,
    pub volume: i64,
}

impl View for OrderLog {
    type V = OrderLogView;

    open spec fn view(&self) -> OrderLogView {
        OrderLogView {
            no: self.no,
            seccode: self.seccode@,
            buysell: self.buysell,
            time: self.time,
            orderno: self.orderno,
            action: self.action,
            price: self.price,
            volume: self.volume,
        }
    }
}

/// The time of day that the exchange writes as the digits `HHMMSSffffff`:
/// hours, minutes, seconds and microseconds, the hours taking every digit
/// before the last ten.
pub open spec fn time_from_digits(t: u64) -> Option<TimeOfDay> {
    time_from_hms_micro(
        (t / 10_000_000_000) as u32,
        ((t % 10_000_000_000) / 100_000_000) as u32,
        ((t % 100_000_000) / 1_000_000) as u32,
        (t % 1_000_000) as u32,
    )
}

/// The price that an equity order log writes as `n`: `0` is the market
/// price, any other text a limit read as `rust_decimal` reads numbers.
pub open spec fn order_log_price(n: Seq<char>) -> Option<Price> {
    if n == seq!['0'] {
        Some(Price::Market)
    } else {
        match decimal_of(decimal_from_str(n)) {
            Some(d) => Some(Price::Limit(d)),
            None => None,
        }
    }
}

/// The action that the action code `code` and the trade fields `rest` (the
/// trade id, then the trade price, read as `trade_price`) describe, for an
/// order log line: an empty trade id with the code `0` cancels, with the code
/// `1` adds; anything else is a trade, which needs the code `2`, a whole
/// number for its id and a number for its price.
pub open spec fn order_log_action(
    code: Seq<char>,
    rest: Seq<Seq<char>>,
    trade_price: Option<Decimal>,
) -> ParseOutcome<Action> {
    let trade_id = rest[0];
    if trade_id.len() == 0 && code == seq!['0'] {
        ParseOutcome::Parsed(Action::Cancel)
    } else if trade_id.len() == 0 && code == seq!['1'] {
        ParseOutcome::Parsed(Action::Add)
    } else if code != seq!['2'] {
        ParseOutcome::Contradictory
    } else {
        match parse_i64_spec(trade_id) {
            None => ParseOutcome::Rejected,
            Some(id) => {
                if rest.len() < 2 {
                    ParseOutcome::Rejected
                } else {
                    match trade_price {
                        None => ParseOutcome::Rejected,
                        Some(price) => ParseOutcome::Parsed(Action::Trade(TradeLog { price, id })),
                    }
                }
            },
        }
    }
}

/// The order log line with the fields `f`, whose price field has been read
/// as `price` and whose trade price field as `trade_price`.
pub open spec fn order_log_from_fields(
    f: Seq<Seq<char>>,
    price: Option<Price>,
    trade_price: Option<Decimal>,
) -> ParseOutcome<OrderLogView> {
    if f.len() < 9 {
        // a field before the trade id is missing; the fields that are there
        // are read first, and a missing field rejects the line all the same
        ParseOutcome::Rejected
    } else {
        match (
            parse_u64_spec(f[0]),
            side_from_code(f[2]),
            parse_u64_spec(f[3]),
            parse_u64_spec(f[4]),
            price,
            parse_i64_spec(f[7]),
        ) {
            (Some(no), Ok(buysell), Some(t), Some(orderno), Some(price), Some(volume)) => {
                match time_from_digits(t) {
                    None => ParseOutcome::Rejected,
                    Some(time) => match order_log_action(f[5], f.subrange(8, f.len() as int), trade_price) {
                        ParseOutcome::Parsed(action) => ParseOutcome::Parsed(
                            OrderLogView {
                                no,
                                seccode: f[1],
                                buysell,
                                time,
                                orderno,
                                action,
                                price,
                                volume,
                            },
                        ),
                        ParseOutcome::Rejected => ParseOutcome::Rejected,
                        ParseOutcome::Contradictory => ParseOutcome::Contradictory,
                    },
                }
            },
            _ => ParseOutcome::Rejected,
        }
    }
}

/// The price field of the fields `f`, read.
pub open spec fn order_log_line_price(f: Seq<Seq<char>>) -> Option<Price> {
    if f.len() >= 7 {
        order_log_price(f[6])
    } else {
        None
    }
}

/// The trade price field of the fields `f`, read.
pub open spec fn order_log_line_trade_price(f: Seq<Seq<char>>) -> Option<Decimal> {
    if f.len() >= 10 {
        decimal_of(decimal_from_str(f[9]))
    } else {
        None
    }
}

/// What reading the order log line `s` comes to.
pub open spec fn order_log_outcome(s: Seq<char>) -> ParseOutcome<OrderLogView> {
    order_log_from_fields(fields(s), order_log_line_price(fields(s)), order_log_line_trade_price(fields(s)))
}

/// How the digits of a time split into hours, minutes, seconds and
/// microseconds.
proof fn lemma_time_digits(t: int)
    requires
        t >= 0,
    ensures
        (t / 10_000_000_000) * 10_000_000_000 + t % 10_000_000_000 == t,
        0 <= t % 10_000_000_000,
        ((t % 10_000_000_000) / 100_000_000) * 100_000_000 + t % 100_000_000 == t % 10_000_000_000,
        0 <= t % 100_000_000,
        ((t % 100_000_000) / 1_000_000) * 1_000_000 + t % 1_000_000 == t % 100_000_000,
        0 <= t % 1_000_000,
        (t % 10_000_000_000) / 100_000_000 < 100,
        (t % 100_000_000) / 1_000_000 < 100,
        t <= 0xFFFF_FFFF_FFFF_FFFF ==> t / 10_000_000_000 <= 1_844_674_407,
{
    lemma_fundamental_div_mod(t, 10_000_000_000);
    lemma_fundamental_div_mod(t % 10_000_000_000, 100_000_000);
    lemma_fundamental_div_mod(t % 100_000_000, 1_000_000);
    lemma_mod_mod(t, 100_000_000, 100);
    lemma_mod_mod(t, 1_000_000, 100);
    assert(100_000_000int * 100 == 10_000_000_000int);
    assert(1_000_000int * 100 == 100_000_000int);
    lemma_mod_bound(t, 10_000_000_000);
    lemma_mod_bound(t, 100_000_000);
    lemma_mod_bound(t, 1_000_000);
}

/// The digit positions of a time: the minutes are the two digits above the
/// last eight, the seconds the two digits above the last six.
proof fn lemma_digit_pairs(t: int)
    requires
        t >= 0,
    ensures
        (t % 10_000_000_000) / 100_000_000 == (t / 100_000_000) % 100,
        (t % 100_000_000) / 1_000_000 == (t / 1_000_000) % 100,
{
    lemma_mod_breakdown(t, 100_000_000, 100);
    assert(100_000_000int * 100 == 10_000_000_000int);
    lemma_mod_bound(t, 100_000_000);
    lemma_mod_bound(t / 100_000_000, 100);
    lemma_fundamental_div_mod_converse(
        t % 10_000_000_000,
        100_000_000,
        (t / 100_000_000) % 100,
        t % 100_000_000,
    );
    lemma_mod_breakdown(t, 1_000_000, 100);
    assert(1_000_000int * 100 == 100_000_000int);
    lemma_mod_bound(t, 1_000_000);
    lemma_mod_bound(t / 1_000_000, 100);
    lemma_fundamental_div_mod_converse(t % 100_000_000, 1_000_000, (t / 1_000_000) % 100, t % 1_000_000);
}

/// The exchange writes a time of day as the digits `t` = `HHMMSSffffff`: the
/// hour is every digit before the last ten, whatever its value, then two
/// digits each of minutes and seconds, then six of microseconds. The digits
/// read exactly when hour, minute and second make a time of day, and then
/// give that many seconds since midnight and that many nanoseconds.
pub proof fn lemma_log_digits_time(t: u64)
    ensures
        ({
            let hour = t / 10_000_000_000;
            let min = (t / 100_000_000) % 100;
            let sec = (t / 1_000_000) % 100;
            let micro = t % 1_000_000;
            &&& (time_from_digits(t) is Some <==> hour < 24 && min < 60 && sec < 60)
            &&& (time_from_digits(t) matches Some(tod) ==> tod.secs == hour * 3600 + min * 60 + sec && tod.frac
                == micro * 1000)
        }),
{
    lemma_digit_pairs(t as int);
    lemma_mod_bound(t as int, 1_000_000);
}

/// What reading an order log line gives for its price and its time: the
/// price field (the seventh) is the market price exactly when it is the text
/// `0`, and otherwise the limit that `rust_decimal` reads from it; the time
/// is what the digits of the fourth field give.
pub proof fn lemma_order_log_price_and_time(s: Seq<char>)
    ensures
        (match order_log_outcome(s) {
            ParseOutcome::Parsed(v) => {
                let f = fields(s);
                &&& (v.price == Price::Market <==> f[6] == seq!['0'])
                &&& (f[6] != seq!['0'] ==> (decimal_from_str(f[6]) matches Some((m, sc)) && v.price == Price::Limit(
                    Decimal::spec_new(m, sc),
                )))
                &&& (parse_u64_spec(f[3]) matches Some(t) && time_from_digits(t) == Some(v.time))
            },
            _ => true,
        }),
{
}

/// Which field of an order log line gives which part of the order: NO is the
/// first, SECCODE the second, BUYSELL the third (`B` buys, `S` sells),
/// ORDERNO the fifth and VOLUME the eighth. The action comes from ACTION (the
/// sixth) and TRADENO (the ninth): an empty TRADENO with `0` cancels and with
/// `1` adds; otherwise ACTION is `2` and the trade has TRADENO for its id and
/// TRADEPRICE (the tenth) for its price.
pub proof fn lemma_order_log_fields(s: Seq<char>)
    ensures
        (match order_log_outcome(s) {
            ParseOutcome::Parsed(v) => {
                let f = fields(s);
                &&& f.len() >= 9
                &&& parse_u64_spec(f[0]) == Some(v.no)
                &&& v.seccode == f[1]
                &&& (v.buysell == Side::Buy <==> f[2] == seq!['B'])
                &&& (v.buysell == Side::Sell <==> f[2] == seq!['S'])
                &&& parse_u64_spec(f[4]) == Some(v.orderno)
                &&& parse_i64_spec(f[7]) == Some(v.volume)
                &&& (v.action == Action::Cancel <==> f[8].len() == 0 && f[5] == seq!['0'])
                &&& (v.action == Action::Add <==> f[8].len() == 0 && f[5] == seq!['1'])
                &&& (v.action matches Action::Trade(t) ==> {
                    &&& f[5] == seq!['2']
                    &&& f.len() >= 10
                    &&& parse_i64_spec(f[8]) == Some(t.id)
                    &&& (decimal_from_str(f[9]) matches Some((m, sc)) && t.price == Decimal::spec_new(m, sc))
                })
            },
            _ => true,
        }),
{
    assert(seq!['0'] != seq!['1'] && seq!['B'] != seq!['S']) by {
        assert(seq!['0'][0] != seq!['1'][0] && seq!['B'][0] != seq!['S'][0]);
    }
}

impl TimeOfDay {
    /// The time of day that the exchange writes as the digits `HHMMSSffffff`.
    pub fn from_log_digits(time_s: u64) -> (r: Option<TimeOfDay>)
        ensures
            r == time_from_digits(time_s),
    {
        proof {
            lemma_time_digits(time_s as int);
        }
        let hour_mul: u64 = 10_000_000_000;
        let hour = time_s / hour_mul;
        let minutes_mul: u64 = 100_000_000;
        let minutes = (time_s - hour * hour_mul) / minutes_mul;
        let seconds_mul: u64 = 1_000_000;
        let seconds = (time_s - hour * hour_mul - minutes * minutes_mul) / seconds_mul;
        let subsec_mul: u64 = 1;
        let subsec = (time_s - hour * hour_mul - minutes * minutes_mul - seconds * seconds_mul)
            / subsec_mul;
        TimeOfDay::from_hms_micro_opt(hour as u32, minutes as u32, seconds as u32, subsec as u32)
    }
}

impl Price {
    /// Reads the price field of an order log line.
    pub fn from_order_log_field(n: &Vec<char>) -> (r: Option<Price>)
        ensures
            r == order_log_price(n@),
    {
        if is_char_text(n, '0') {
            Some(Price::Market)
        } else {
            match Decimal::parse_chars(n) {
                Some(d) => Some(Price::Limit(d)),
                None => None,
            }
        }
    }
}

/// Reads the action of an order log line from its action code and the
/// fields from the trade id on, whose trade price has been read as
/// `trade_price`.
fn read_order_log_action(code: &Vec<char>, f: &Vec<Vec<char>>, first: usize, trade_price: Option<Decimal>) -> (r:
    ParseOutcome<Action>)
    requires
        first < f.len(),
    ensures
        r == order_log_action(code@, texts(f@).subrange(first as int, f@.len() as int), trade_price),
{
    let ghost rest = texts(f@).subrange(first as int, f@.len() as int);
    assert(rest[0] == f@[first as int]@);
    let trade_id = &f[first];
    if trade_id.len() == 0 && is_char_text(code, '0') {
        return ParseOutcome::Parsed(Action::Cancel);
    }
    if trade_id.len() == 0 && is_char_text(code, '1') {
        return ParseOutcome::Parsed(Action::Add);
    }
    if !is_char_text(code, '2') {
        return ParseOutcome::Contradictory;
    }
    let id = match parse_i64(trade_id) {
        Some(id) => id,
        None => {
            return ParseOutcome::Rejected;
        },
    };
    if first + 1 >= f.len() {
        return ParseOutcome::Rejected;
    }
    let price = match trade_price {
        Some(p) => p,
        None => {
            return ParseOutcome::Rejected;
        },
    };
    ParseOutcome::Parsed(Action::Trade(TradeLog { price, id }))
}

impl OrderLog {
    /// Builds the order log line with the fields `f`, whose price field has
    /// been read as `price` (see `Price::from_order_log_field`) and whose
    /// trade price field as `trade_price`.
    pub fn from_fields(f: &Vec<Vec<char>>, price: Option<Price>, trade_price: Option<Decimal>) -> (r:
        ParseOutcome<OrderLog>)
        ensures
            outcome_view(r) == order_log_from_fields(texts(f@), price, trade_price),
    {
        let ghost tf = texts(f@);
        if f.len() < 9 {
            return ParseOutcome::Rejected;
        }
        assert(tf[0] == f@[0]@ && tf[1] == f@[1]@ && tf[2] == f@[2]@ && tf[3] == f@[3]@);
        assert(tf[4] == f@[4]@ && tf[5] == f@[5]@ && tf[7] == f@[7]@);
        let no = match parse_u64(&f[0]) {
            Some(no) => no,
            None => {
                return ParseOutcome::Rejected;
            },
        };
        let seccode = string_from_chars(&f[1]);
        let buysell = match Side::from_chars(&f[2]) {
            Ok(side) => side,
            Err(_) => {
                return ParseOutcome::Rejected;
            },
        };
        let time_s = match parse_u64(&f[3]) {
            Some(t) => t,
            None => {
                return ParseOutcome::Rejected;
            },
        };
        let orderno = match parse_u64(&f[4]) {
            Some(n) => n,
            None => {
                return ParseOutcome::Rejected;
            },
        };
        let price = match price {
            Some(p) => p,
            None => {
                return ParseOutcome::Rejected;
            },
        };
        let volume = match parse_i64(&f[7]) {
            Some(v) => v,
            None => {
                return ParseOutcome::Rejected;
            },
        };
        let time = match TimeOfDay::from_log_digits(time_s) {
            Some(t) => t,
            None => {
                return ParseOutcome::Rejected;
            },
        };
        match read_order_log_action(&f[5], f, 8, trade_price) {
            ParseOutcome::Parsed(action) => ParseOutcome::Parsed(
                OrderLog { no, seccode, buysell, time, orderno, action, price, volume },
            ),
            ParseOutcome::Rejected => ParseOutcome::Rejected,
            ParseOutcome::Contradictory => ParseOutcome::Contradictory,
        }
    }

    /// Reads an order log line; `None` where a field is missing or does not
    /// read. A line whose action code contradicts its trade fields is left
    /// out (see `checked_new`).
    pub fn new(s: &str) -> (r: Option<OrderLog>)
        requires
            !(order_log_outcome(s@) is Contradictory),
        ensures
            (match order_log_outcome(s@) {
                ParseOutcome::Parsed(v) => r matches Some(l) && l@ == v,
                _ => r is None,
            }),
    {
        let chars = chars_of(s);
        let f = split_fields(&chars);
        let price = if f.len() >= 7 {
            assert(texts(f@)[6] == f@[6]@);
            Price::from_order_log_field(&f[6])
        } else {
            None
        };
        let trade_price = if f.len() >= 10 {
            assert(texts(f@)[9] == f@[9]@);
            Decimal::parse_chars(&f[9])
        } else {
            None
        };
        match OrderLog::from_fields(&f, price, trade_price) {
            ParseOutcome::Parsed(log) => Some(log),
            _ => None,
        }
    }

    /// Reads an order log line as `new` does; `None` where the line's action
    /// code contradicts its trade fields, and `Some` of what `new` gives
    /// otherwise.
    pub fn checked_new(s: &str) -> (r: Option<Option<OrderLog>>)
        ensures
            r is None <==> order_log_outcome(s@) is Contradictory,
            r matches Some(x) ==> (match order_log_outcome(s@) {
                ParseOutcome::Parsed(v) => x matches Some(l) && l@ == v,
                _ => x is None,
            }),
    {
        let chars = chars_of(s);
        let f = split_fields(&chars);
        let price = if f.len() >= 7 {
            assert(texts(f@)[6] == f@[6]@);
            Price::from_order_log_field(&f[6])
        } else {
            None
        };
        let trade_price = if f.len() >= 10 {
            assert(texts(f@)[9] == f@[9]@);
            Decimal::parse_chars(&f[9])
        } else {
            None
        };
        match OrderLog::from_fields(&f, price, trade_price) {
            ParseOutcome::Contradictory => None,
            _ => Some(OrderLog::new(s)),
        }
    }
}

impl Default for OrderLog {
    /// An empty order to buy, cancelled at the market price at midnight,
    /// with every number zero and no security code.
    fn default() -> (r: OrderLog)
        ensures
            r.no == 0,
            r.seccode@ == Seq::<char>::empty(),
            r.buysell == Side::Buy,
            r.time == (TimeOfDay { secs: 0, frac: 0 }),
            r.orderno == 0,
            r.action == Action::Cancel,
            r.price == Price::Market,
            r.volume == 0,
    {
        OrderLog {
            no: 0,
            seccode: String::new(),
            buysell: Side::default(),
            time: TimeOfDay { secs: 0, frac: 0 },
            orderno: 0,
            action: Action::default(),
            price: Price::default(),
            volume: 0,
        }
    }
}

} // verus!
