//! Fixed-point money: a signed count of ten-thousandths.

use vstd::prelude::*;

verus! {

/// How many units make one whole currency unit (four fractional digits).
pub const UNITS_PER_ONE: i128 = 10000;

/// The largest magnitude, in units, that a balance or an amount may have.
pub const MONEY_LIMIT: i128 = 10_000_000_000_000_000_000_000_000_000;

/// The largest magnitude of a mantissa that `rust_decimal::Decimal` can hold.
pub const DECIMAL_MANTISSA_MAX: i128 = 79_228_162_514_264_337_593_543_950_335;

/// Whether a number of units lies in the range that money may take.
pub open spec fn in_money_range(v: int) -> bool {
    -(MONEY_LIMIT as int) <= v <= MONEY_LIMIT as int
}

/// A signed fixed-point amount with four fractional digits. Arithmetic on it
/// is exact.
#[derive(Clone, Copy, Debug, PartialEq, Eq, Structural)]
pub struct Money {
    /// The amount in ten-thousandths.
    pub units: i128,
}

/// The character of a decimal digit.
pub open spec fn digit_char(d: int) -> char {
    if d == 0 {
        '0'
    } else if d == 1 {
        '1'
    } else if d == 2 {
        '2'
    } else if d == 3 {
        '3'
    } else if d == 4 {
        '4'
    } else if d == 5 {
        '5'
    } else if d == 6 {
        '6'
    } else if d == 7 {
        '7'
    } else if d == 8 {
        '8'
    } else {
        '9'
    }
}

/// The decimal digits of `n`, without leading zeros (`0` for zero).
pub open spec fn decimal_digits(n: nat) -> Seq<char>
    decreases n,
{
    if n < 10 {
        seq![digit_char(n as int)]
    } else {
        decimal_digits(n / 10).push(digit_char((n % 10) as int))
    }
}

/// The text of `units / 10^4` with four fractional digits: a `-` when
/// negative, the whole part without leading zeros (`0` when it is zero), a
/// point, and exactly four fractional digits.
pub open spec fn decimal_text_of(units: int) -> Seq<char> {
    let m: nat = if units < 0 {
        (-units) as nat
    } else {
        units as nat
    };
    let sign = if units < 0 {
        seq!['-']
    } else {
        Seq::<char>::empty()
    };
    sign + decimal_digits(m / 10000) + seq![
        '.',
        digit_char(((m / 1000) % 10) as int),
        digit_char(((m / 100) % 10) as int),
        digit_char(((m / 10) % 10) as int),
        digit_char((m % 10) as int),
    ]
}

/// Relies on `rust_decimal::Decimal::from_i128_with_scale` (which panics when
/// the mantissa exceeds 2^96 - 1 in magnitude) and on the `Display` of
/// `Decimal`, which for scale 4 prints the sign, the whole digits, a point and
/// the four fractional digits.
#[verifier::external_body]
fn decimal_text(units: i128) -> (r: String)
    requires
        -DECIMAL_MANTISSA_MAX <= units <= DECIMAL_MANTISSA_MAX,
    ensures
        r@ == decimal_text_of(units as int),
{
    rust_decimal::Decimal::from_i128_with_scale(units, 4).to_string()
}

impl Money {
    /// The amount as an integer number of units.
    pub open spec fn value(self) -> int {
        self.units as int
    }

    /// Whether the amount lies in the range that money may take.
    pub open spec fn valid(self) -> bool {
        in_money_range(self.units as int)
    }

    /// Zero.
    pub fn zero() -> (r: Money)
        ensures
            r.value() == 0,
    {
        Money { units: 0 }
    }

    /// The amount of `units` ten-thousandths, if it lies in the money range.
    pub fn from_units(units: i128) -> (r: Option<Money>)
        ensures
            r is Some <==> in_money_range(units as int),
            r is Some ==> r->0.units == units,
    {
        if -MONEY_LIMIT <= units && units <= MONEY_LIMIT {
            Some(Money { units })
        } else {
            None
        }
    }

    /// Whether the amount lies in the range that money may take.
    pub fn in_range(&self) -> (r: bool)
        ensures
            r == self.valid(),
    {
        -MONEY_LIMIT <= self.units && self.units <= MONEY_LIMIT
    }

    /// Whether the amount is greater than zero.
    pub fn is_positive(&self) -> (r: bool)
        ensures
            r == (self.value() > 0),
    {
        self.units > 0
    }

    /// Whether the amount is zero.
    pub fn is_zero(&self) -> (r: bool)
        ensures
            r == (self.value() == 0),
    {
        self.units == 0
    }

    /// Whether the amount is below zero.
    pub fn is_negative(&self) -> (r: bool)
        ensures
            r == (self.value() < 0),
    {
        self.units < 0
    }

    /// Whether `self < other`.
    pub fn less_than(&self, other: &Money) -> (r: bool)
        ensures
            r == (self.value() < other.value()),
    {
        self.units < other.units
    }

    /// The sum, if it lies in the money range.
    pub fn checked_add(&self, other: &Money) -> (r: Option<Money>)
        requires
            self.valid(),
            other.valid(),
        ensures
            r is Some <==> in_money_range(self.value() + other.value()),
            r is Some ==> r->0.value() == self.value() + other.value(),
    {
        Money::from_units(self.units + other.units)
    }

    /// The difference, if it lies in the money range.
    pub fn checked_sub(&self, other: &Money) -> (r: Option<Money>)
        requires
            self.valid(),
            other.valid(),
        ensures
            r is Some <==> in_money_range(self.value() - other.value()),
            r is Some ==> r->0.value() == self.value() - other.value(),
    {
        Money::from_units(self.units - other.units)
    }

    /// The negated amount.
    pub fn negate(&self) -> (r: Money)
        requires
            self.valid(),
        ensures
            r.value() == -self.value(),
            r.valid(),
    {
        Money { units: -self.units }
    }

    /// The amount as decimal text, as `rust_decimal` renders it.
    pub fn to_text(&self) -> (r: String)
        requires
            -2 * MONEY_LIMIT <= self.value() <= 2 * MONEY_LIMIT,
        ensures
            r@ == decimal_text_of(self.value()),
    {
        decimal_text(self.units)
    }
}

} // verus!
