use vstd::prelude::*;
use vstd::std_specs::cmp::PartialEqSpecImpl;
use crate::text::chars_of;

verus! {

/// Largest mantissa magnitude a decimal can hold: 2^96 - 1.
pub const MAX_MANTISSA: i128 = 0xFFFF_FFFF_FFFF_FFFF_FFFF_FFFFi128;

/// Largest number of digits after the decimal point.
pub const MAX_SCALE: u32 = 28;

/// Ten to the power `n`.
pub open spec fn pow10(n: nat) -> int
    decreases n,
{
    if n == 0 {
        1
    } else {
        10 * pow10((n - 1) as nat)
    }
}

/// The outcome of comparing two decimal numbers by value.
#[derive(Clone, Copy, Debug, PartialEq, Eq, Structural)]
pub enum DecimalOrder {
    Less,
    Equal,
    Greater,
}

/// An exact decimal number `mantissa / 10^scale`, held as the two plain
/// values from which `rust_decimal` builds its numbers: a mantissa of at most
/// 96 bits and a scale of at most 28.
#[derive(Clone, Copy, Debug)]
pub struct Decimal {
    mantissa: i128,
    scale: u32,
}

impl Decimal {
    /// The mantissa: the number is `mantissa / 10^scale`.
    pub closed spec fn spec_mantissa(&self) -> i128 {
        self.mantissa
    }

    /// The number of digits after the decimal point.
    pub closed spec fn spec_scale(&self) -> u32 {
        self.scale
    }

    /// The bounds that every decimal number keeps.
    #[verifier::type_invariant]
    pub open spec fn wf(self) -> bool {
        &&& self.spec_scale() <= MAX_SCALE
        &&& -MAX_MANTISSA <= self.spec_mantissa() <= MAX_MANTISSA
    }

    /// The value of the number times 10^28: an integer that orders decimal
    /// numbers as their values do, and is equal for equal values
    /// (`1.5` and `1.50` have the same key).
    pub open spec fn key(self) -> int {
        self.spec_mantissa() * pow10((MAX_SCALE - self.spec_scale()) as nat)
    }

    /// The number `m / 10^s`.
    pub closed spec fn spec_new(m: i128, s: u32) -> Decimal {
        Decimal { mantissa: m, scale: s }
    }

    /// Builds `mantissa / 10^scale`; `None` where the parts are out of range.
    pub fn from_parts(mantissa: i128, scale: u32) -> (r: Option<Decimal>)
        ensures
            r == (if scale <= MAX_SCALE && -MAX_MANTISSA <= mantissa <= MAX_MANTISSA {
                Some(Decimal::spec_new(mantissa, scale))
            } else {
                None
            }),
            r matches Some(d) ==> d.spec_mantissa() == mantissa && d.spec_scale() == scale,
    {
        if scale <= MAX_SCALE && -MAX_MANTISSA <= mantissa && mantissa <= MAX_MANTISSA {
            Some(Decimal { mantissa, scale })
        } else {
            None
        }
    }

    /// The whole number `v`.
    pub fn from_i64(v: i64) -> (r: Decimal)
        ensures
            r == Decimal::spec_new(v as i128, 0),
            r.spec_mantissa() == v,
            r.spec_scale() == 0,
    {
        Decimal { mantissa: v as i128, scale: 0 }
    }

    /// The mantissa: the number is `mantissa / 10^scale`.
    #[verifier::when_used_as_spec(spec_mantissa)]
    pub fn mantissa(&self) -> (r: i128)
        ensures
            r == self.spec_mantissa(),
    {
        self.mantissa
    }

    /// The number of digits after the decimal point.
    #[verifier::when_used_as_spec(spec_scale)]
    pub fn scale(&self) -> (r: u32)
        ensures
            r == self.spec_scale(),
    {
        self.scale
    }

    /// Compares two numbers by value.
    pub fn compare(&self, other: &Decimal) -> (r: DecimalOrder)
        ensures
            r == compare_keys(self.key(), other.key()),
    {
        proof {
            use_type_invariant(self);
            use_type_invariant(other);
        }
        rust_decimal_order(self.mantissa, self.scale, other.mantissa, other.scale)
    }
}

/// The number `m / 10^s` has the mantissa `m` and the scale `s`.
pub broadcast proof fn lemma_spec_new_parts(m: i128, s: u32)
    ensures
        (#[trigger] Decimal::spec_new(m, s)).spec_mantissa() == m,
        Decimal::spec_new(m, s).spec_scale() == s,
{
}

/// Every number is `m / 10^s` for its own mantissa `m` and scale `s`.
pub proof fn lemma_parts_spec_new(d: Decimal)
    ensures
        d == Decimal::spec_new(d.spec_mantissa(), d.spec_scale()),
{
}

/// The number with the given mantissa and scale, if any.
pub open spec fn decimal_of(p: Option<(i128, u32)>) -> Option<Decimal> {
    match p {
        Some((m, s)) => Some(Decimal::spec_new(m, s)),
        None => None,
    }
}

impl Decimal {
    /// Reads a number as `rust_decimal` reads text.
    pub fn parse_chars(s: &Vec<char>) -> (r: Option<Decimal>)
        ensures
            r == decimal_of(decimal_from_str(s@)),
    {
        match rust_decimal_from_str(s) {
            Some((m, sc)) => Some(Decimal { mantissa: m, scale: sc }),
            None => None,
        }
    }

    /// Reads a number as `rust_decimal` reads text.
    pub fn from_str(s: &str) -> (r: Option<Decimal>)
        ensures
            r == decimal_of(decimal_from_str(s@)),
    {
        let chars = chars_of(s);
        Decimal::parse_chars(&chars)
    }
}

impl Default for Decimal {
    /// Zero.
    fn default() -> (r: Decimal)
        ensures
            r == Decimal::spec_new(0, 0),
    {
        Decimal { mantissa: 0, scale: 0 }
    }
}

impl PartialEq for Decimal {
    fn eq(&self, other: &Decimal) -> (r: bool) {
        match self.compare(other) {
            DecimalOrder::Equal => true,
            _ => false,
        }
    }
}

impl PartialEqSpecImpl for Decimal {
    open spec fn obeys_eq_spec() -> bool {
        true
    }

    open spec fn eq_spec(&self, other: &Decimal) -> bool {
        self.key() == other.key()
    }
}

impl Eq for Decimal {
}

/// What `<rust_decimal::Decimal as FromStr>::from_str` gives for the text `s`,
/// read back as (mantissa, scale).
pub uninterp spec fn decimal_from_str(s: Seq<char>) -> Option<(i128, u32)>;

/// `<rust_decimal::Decimal as FromStr>::from_str` on the text `s`, read back
/// through `Decimal::mantissa` and `Decimal::scale`. Which texts the crate
/// accepts, and how it rounds, is left to the name `decimal_from_str`; the
/// contract adds only the crate's bounds on every number: a mantissa of 96
/// bits and a scale of at most 28.
#[verifier::external_body]
fn rust_decimal_from_str(s: &Vec<char>) -> (r: Option<(i128, u32)>)
    ensures
        r == decimal_from_str(s@),
        r matches Some((m, sc)) ==> sc <= MAX_SCALE && -MAX_MANTISSA <= m <= MAX_MANTISSA,
{
    let text: String = s.iter().collect();
    match text.parse::<rust_decimal::Decimal>() {
        Ok(d) => Some((d.mantissa(), d.scale())),
        Err(_) => None,
    }
}

/// `m / 10^s` times 10^28.
pub open spec fn scaled_value(m: i128, s: u32) -> int {
    m * pow10((MAX_SCALE - s) as nat)
}

/// The order of two integers.
pub open spec fn compare_keys(a: int, b: int) -> DecimalOrder {
    if a < b {
        DecimalOrder::Less
    } else if a == b {
        DecimalOrder::Equal
    } else {
        DecimalOrder::Greater
    }
}

/// `rust_decimal::Decimal::cmp` on the numbers `m1 / 10^s1` and `m2 / 10^s2`,
/// built with `rust_decimal::Decimal::from_i128_with_scale`, which panics
/// outside the ranges that `requires` states. The crate's `Ord` compares
/// numbers by value, which is the order of their values times 10^28.
#[verifier::external_body]
fn rust_decimal_order(m1: i128, s1: u32, m2: i128, s2: u32) -> (r: DecimalOrder)
    requires
        s1 <= MAX_SCALE,
        s2 <= MAX_SCALE,
        -MAX_MANTISSA <= m1 <= MAX_MANTISSA,
        -MAX_MANTISSA <= m2 <= MAX_MANTISSA,
    ensures
        r == compare_keys(scaled_value(m1, s1), scaled_value(m2, s2)),
{
    let a = rust_decimal::Decimal::from_i128_with_scale(m1, s1);
    let b = rust_decimal::Decimal::from_i128_with_scale(m2, s2);
    match a.cmp(&b) {
        core::cmp::Ordering::Less => DecimalOrder::Less,
        core::cmp::Ordering::Equal => DecimalOrder::Equal,
        core::cmp::Ordering::Greater => DecimalOrder::Greater,
    }
}

} // verus!
