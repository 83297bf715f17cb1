//! Fixed-point decimal numbers and the conversion from and to the integers
//! the exchange stores.

use vstd::prelude::*;
use fastnum::decimal::Context;
use fastnum::{U128, UD128};

verus! {

/// Number of fractional decimal digits carried by every decimal of this crate.
pub const FRACTION_DIGITS: u8 = 18;

/// Largest exponent `n` for which `10^n` fits into 128 bits.
pub const MAX_POW10_EXP: u8 = 38;

/// `10^n`.
pub open spec fn pow10(n: nat) -> nat
    decreases n,
{
    if n == 0 {
        1
    } else {
        10 * pow10((n - 1) as nat)
    }
}

/// `10^n` is positive.
pub proof fn lemma_pow10_positive(n: nat)
    ensures
        pow10(n) >= 1,
    decreases n,
{
    if n > 0 {
        lemma_pow10_positive((n - 1) as nat);
    }
}

/// `10^n` grows with `n`.
pub proof fn lemma_pow10_monotonic(a: nat, b: nat)
    requires
        a <= b,
    ensures
        pow10(a) <= pow10(b),
    decreases b,
{
    if a < b {
        lemma_pow10_monotonic(a, (b - 1) as nat);
    }
}

/// `10^38` is the largest power of ten below `2^128`.
pub proof fn lemma_pow10_bounds()
    ensures
        pow10(38) == 100000000000000000000000000000000000000,
        pow10(38) <= u128::MAX,
        pow10(39) > u128::MAX,
        pow10(18) == 1000000000000000000,
{
    reveal_with_fuel(pow10, 40);
}

/// `10^n` for `n` up to 38.
pub fn pow10_u128(n: u8) -> (r: u128)
    requires
        n <= MAX_POW10_EXP,
    ensures
        r == pow10(n as nat),
        r >= 1,
{
    let mut r: u128 = 1;
    let mut i: u8 = 0;
    while i < n
        invariant
            i <= n,
            n <= 38,
            r == pow10(i as nat),
        decreases n - i,
    {
        proof {
            lemma_pow10_monotonic((i + 1) as nat, 38);
            lemma_pow10_bounds();
        }
        r = r * 10;
        i = i + 1;
    }
    proof {
        lemma_pow10_positive(n as nat);
    }
    r
}

/// Unsigned decimal number with eighteen fractional digits.
///
/// The value of a decimal is `units · 10^-18`; two decimals are equal exactly
/// when their units are.
#[derive(Clone, Copy, Debug, PartialEq, Eq, Structural, PartialOrd, Ord, Hash)]
pub struct Decimal {
    pub units: u128,
}

impl Decimal {
    /// The decimal zero.
    pub open spec fn spec_zero() -> Decimal {
        Decimal { units: 0 }
    }

    /// The decimal zero.
    #[verifier::when_used_as_spec(spec_zero)]
    pub fn zero() -> (r: Decimal)
        ensures
            r == Decimal::spec_zero(),
    {
        Decimal { units: 0 }
    }

    /// The decimal whose value is `units · 10^-18`.
    pub fn from_units(units: u128) -> (r: Decimal)
        ensures
            r.units == units,
    {
        Decimal { units }
    }

    /// The whole number `n` as a decimal.
    pub fn from_integer(n: u64) -> (r: Decimal)
        ensures
            r.units == n * pow10(18),
    {
        proof {
            lemma_pow10_bounds();
            assert(n * 1000000000000000000 <= u128::MAX) by (nonlinear_arith)
                requires
                    n <= u64::MAX,
            ;
        }
        Decimal { units: (n as u128) * 1000000000000000000u128 }
    }

    /// The number of `10^-18` units in the value.
    pub fn units(&self) -> (r: u128)
        ensures
            r == self.units,
    {
        self.units
    }

    /// Whether the value is zero.
    pub fn is_zero(&self) -> (r: bool)
        ensures
            r == (self.units == 0),
    {
        self.units == 0
    }

    /// The sum, unless it exceeds the range of the type.
    pub fn checked_add(self, rhs: Decimal) -> (r: Option<Decimal>)
        ensures
            self.units + rhs.units <= u128::MAX ==> r == Some(
                Decimal { units: (self.units + rhs.units) as u128 },
            ),
            self.units + rhs.units > u128::MAX ==> r is None,
    {
        match self.units.checked_add(rhs.units) {
            Some(units) => Some(Decimal { units }),
            None => None,
        }
    }

    /// The difference, unless `rhs` is the larger.
    pub fn checked_sub(self, rhs: Decimal) -> (r: Option<Decimal>)
        ensures
            self.units >= rhs.units ==> r == Some(
                Decimal { units: (self.units - rhs.units) as u128 },
            ),
            self.units < rhs.units ==> r is None,
    {
        if self.units >= rhs.units {
            Some(Decimal { units: self.units - rhs.units })
        } else {
            None
        }
    }

    /// The difference, or zero where `rhs` is the larger.
    pub fn saturating_sub(self, rhs: Decimal) -> (r: Decimal)
        ensures
            r.units == if self.units >= rhs.units {
                self.units - rhs.units
            } else {
                0
            },
    {
        if self.units >= rhs.units {
            Decimal { units: self.units - rhs.units }
        } else {
            Decimal { units: 0 }
        }
    }
}


/// Signed decimal number with eighteen fractional digits, kept as a sign and
/// a magnitude so that it reaches further than [`Decimal`] in both directions.
///
/// Zero is never negative, so two signed decimals are equal exactly when
/// their fields are.
#[derive(Clone, Copy, Debug, PartialEq, Eq, Structural, Hash)]
pub struct SignedDecimal {
    pub negative: bool,
    pub units: u128,
}

impl SignedDecimal {
    /// Zero carries no sign.
    pub open spec fn wf(&self) -> bool {
        self.units == 0 ==> !self.negative
    }

    /// The value in units of `10^-18`.
    pub open spec fn value(&self) -> int {
        if self.negative {
            -(self.units as int)
        } else {
            self.units as int
        }
    }

    /// The signed decimal of the given value, where it fits.
    pub open spec fn of_value(v: int) -> SignedDecimal {
        if v < 0 {
            SignedDecimal { negative: true, units: (-v) as u128 }
        } else {
            SignedDecimal { negative: false, units: v as u128 }
        }
    }

    /// Signed zero-free zero.
    pub fn zero() -> (r: SignedDecimal)
        ensures
            r == SignedDecimal::of_value(0),
            r.wf(),
    {
        SignedDecimal { negative: false, units: 0 }
    }

    /// The decimal `±units · 10^-18`; a negative zero becomes zero.
    pub fn from_parts(negative: bool, units: u128) -> (r: SignedDecimal)
        ensures
            r.wf(),
            r.units == units,
            r.negative == (negative && units != 0),
    {
        SignedDecimal { negative: negative && units != 0, units }
    }

    /// The unsigned decimal with a plus sign.
    pub fn from_unsigned(d: Decimal) -> (r: SignedDecimal)
        ensures
            r.wf(),
            r.value() == d.units,
    {
        SignedDecimal { negative: false, units: d.units }
    }

    /// Whether the value is below zero.
    pub fn is_negative(&self) -> (r: bool)
        ensures
            r == self.negative,
    {
        self.negative
    }

    /// The magnitude of the value.
    pub fn magnitude(&self) -> (r: Decimal)
        ensures
            r.units == self.units,
    {
        Decimal { units: self.units }
    }

    /// The sum, unless its magnitude exceeds the range of the type.
    pub open spec fn spec_checked_add(self, rhs: SignedDecimal) -> Option<SignedDecimal> {
        if -(u128::MAX as int) <= self.value() + rhs.value() <= u128::MAX {
            Some(SignedDecimal::of_value(self.value() + rhs.value()))
        } else {
            None
        }
    }

    /// The sum, unless its magnitude exceeds the range of the type.
    pub fn checked_add(self, rhs: SignedDecimal) -> (r: Option<SignedDecimal>)
        requires
            self.wf(),
            rhs.wf(),
        ensures
            r == self.spec_checked_add(rhs),
            r matches Some(s) ==> s.wf(),
    {
        if self.negative == rhs.negative {
            match self.units.checked_add(rhs.units) {
                Some(units) => Some(SignedDecimal { negative: self.negative, units }),
                None => None,
            }
        } else if self.units >= rhs.units {
            let units: u128 = self.units - rhs.units;
            Some(SignedDecimal { negative: self.negative && units != 0, units })
        } else {
            Some(SignedDecimal { negative: rhs.negative, units: rhs.units - self.units })
        }
    }
}

/// What the decimal arithmetic of `fastnum` hands back, taken apart into
/// plain values: whether the result is a finite number, its digits, and the
/// count of those digits that stand behind the decimal point.
#[derive(Clone, Copy, Debug, PartialEq, Eq, Structural)]
pub struct RawDecimal {
    pub finite: bool,
    pub digits: u128,
    pub scale: i16,
}

/// The product that `fastnum` computes for the 128-bit decimals
/// `a · 10^a_exp` and `b · 10^b_exp`, rounded as its default context rounds.
pub uninterp spec fn fastnum_product(a: u128, a_exp: i32, b: u128, b_exp: i32) -> RawDecimal;

/// The quotient that `fastnum` computes for the 128-bit decimals
/// `a · 10^a_exp` and `b · 10^b_exp`, rounded as its default context rounds.
pub uninterp spec fn fastnum_quotient(a: u128, a_exp: i32, b: u128, b_exp: i32) -> RawDecimal;

/// The power of ten that the units of a decimal count: `10^-18`.
pub const UNIT_EXPONENT: i32 = -18;

/// Calls `fastnum::UD128::mul` on the two decimals `a · 10^a_exp` and
/// `b · 10^b_exp`, built with a context without traps so that the call
/// returns on every input, and takes the result apart. The contract claims
/// only that the result depends on nothing but the four arguments.
#[verifier::external_body]
fn raw_product(a: u128, a_exp: i32, b: u128, b_exp: i32) -> (r: RawDecimal)
    ensures
        r == fastnum_product(a, a_exp, b, b_exp),
{
    let ctx = Context::default().without_traps();
    let x = UD128::from_parts(U128::from_u128(a).unwrap_or(U128::ZERO), a_exp, ctx);
    let y = UD128::from_parts(U128::from_u128(b).unwrap_or(U128::ZERO), b_exp, ctx);
    let p = x.mul(y);
    RawDecimal {
        finite: p.is_finite(),
        digits: p.digits().to_u128().unwrap_or(0),
        scale: p.fractional_digits_count(),
    }
}

/// Calls `fastnum::UD128::div` on the two decimals `a · 10^a_exp` and
/// `b · 10^b_exp`, built with a context without traps so that the call
/// returns on every input (a division by zero gives a result that is not
/// finite), and takes the result apart. The contract claims only that the
/// result depends on nothing but the four arguments.
#[verifier::external_body]
fn raw_quotient(a: u128, a_exp: i32, b: u128, b_exp: i32) -> (r: RawDecimal)
    ensures
        r == fastnum_quotient(a, a_exp, b, b_exp),
{
    let ctx = Context::default().without_traps();
    let x = UD128::from_parts(U128::from_u128(a).unwrap_or(U128::ZERO), a_exp, ctx);
    let y = UD128::from_parts(U128::from_u128(b).unwrap_or(U128::ZERO), b_exp, ctx);
    let q = x.div(y);
    RawDecimal {
        finite: q.is_finite(),
        digits: q.digits().to_u128().unwrap_or(0),
        scale: q.fractional_digits_count(),
    }
}

impl Decimal {
    /// The decimal that stands for a raw result: `digits · 10^-scale` cut
    /// off after the eighteenth fractional digit. There is none where the
    /// result is not finite or exceeds the range of the type.
    pub open spec fn spec_from_raw(raw: RawDecimal) -> Option<Decimal> {
        if !raw.finite {
            None
        } else if raw.scale <= 18 {
            if raw.digits * pow10((18 - raw.scale) as nat) <= u128::MAX {
                Some(Decimal { units: (raw.digits * pow10((18 - raw.scale) as nat)) as u128 })
            } else {
                None
            }
        } else {
            Some(Decimal { units: (raw.digits as nat / pow10((raw.scale - 18) as nat)) as u128 })
        }
    }

    /// The decimal that stands for a raw result, rounded toward zero.
    pub fn from_raw(raw: RawDecimal) -> (r: Option<Decimal>)
        ensures
            r == Decimal::spec_from_raw(raw),
    {
        if !raw.finite {
            return None;
        }
        if raw.scale <= 18 {
            let k: i32 = 18 - (raw.scale as i32);
            if raw.digits == 0 {
                return Some(Decimal { units: 0 });
            }
            if k > 38 {
                proof {
                    lemma_pow10_monotonic(39, k as nat);
                    lemma_pow10_bounds();
                    assert(raw.digits * pow10(k as nat) >= pow10(k as nat)) by (nonlinear_arith)
                        requires
                            raw.digits >= 1,
                    ;
                }
                return None;
            }
            let p = pow10_u128(k as u8);
            match raw.digits.checked_mul(p) {
                Some(units) => Some(Decimal { units }),
                None => None,
            }
        } else {
            let k: i32 = (raw.scale as i32) - 18;
            if k > 38 {
                proof {
                    lemma_pow10_monotonic(39, k as nat);
                    lemma_pow10_bounds();
                    assert(raw.digits as nat / pow10(k as nat) == 0) by (nonlinear_arith)
                        requires
                            raw.digits < pow10(k as nat),
                    ;
                }
                return Some(Decimal { units: 0 });
            }
            let p = pow10_u128(k as u8);
            Some(Decimal { units: raw.digits / p })
        }
    }

    /// The product as `fastnum` rounds it, cut off after the eighteenth
    /// fractional digit.
    pub open spec fn spec_checked_mul(self, rhs: Decimal) -> Option<Decimal> {
        Decimal::spec_from_raw(
            fastnum_product(self.units, UNIT_EXPONENT, rhs.units, UNIT_EXPONENT),
        )
    }

    /// The quotient as `fastnum` rounds it, cut off after the eighteenth
    /// fractional digit; none for a zero divisor.
    pub open spec fn spec_checked_div(self, rhs: Decimal) -> Option<Decimal> {
        if rhs.units == 0 {
            None
        } else {
            Decimal::spec_from_raw(
                fastnum_quotient(self.units, UNIT_EXPONENT, rhs.units, UNIT_EXPONENT),
            )
        }
    }

    /// The product, unless it exceeds the range of the type.
    pub fn checked_mul(self, rhs: Decimal) -> (r: Option<Decimal>)
        ensures
            r == self.spec_checked_mul(rhs),
    {
        Decimal::from_raw(raw_product(self.units, UNIT_EXPONENT, rhs.units, UNIT_EXPONENT))
    }

    /// The quotient, unless the divisor is zero or the quotient exceeds the
    /// range of the type.
    pub fn checked_div(self, rhs: Decimal) -> (r: Option<Decimal>)
        ensures
            r == self.spec_checked_div(rhs),
    {
        if rhs.units == 0 {
            None
        } else {
            Decimal::from_raw(raw_quotient(self.units, UNIT_EXPONENT, rhs.units, UNIT_EXPONENT))
        }
    }
}

/// Conversion between the integers the exchange stores, which count units of
/// `10^-decimals`, and decimals.
#[derive(Clone, Copy, Debug, PartialEq, Eq, Structural, Hash)]
pub struct Converter {
    pub decimals: u8,
}

impl Converter {
    /// The number of `10^-18` units in `raw · 10^-decimals`, cut off where
    /// `decimals` exceeds eighteen.
    pub open spec fn units_of(&self, raw: nat) -> nat {
        if self.decimals <= 18 {
            raw * pow10((18 - self.decimals) as nat)
        } else {
            raw / pow10((self.decimals - 18) as nat)
        }
    }

    /// The number of `10^-decimals` units in `units · 10^-18`, rounded toward
    /// zero.
    pub open spec fn raw_of(&self, units: nat) -> nat {
        if self.decimals <= 18 {
            units / pow10((18 - self.decimals) as nat)
        } else {
            units * pow10((self.decimals - 18) as nat)
        }
    }

    /// Whether `d` is a whole number of `10^-decimals` units that fits into
    /// 128 bits.
    pub open spec fn representable(&self, d: Decimal) -> bool {
        if self.decimals <= 18 {
            d.units as nat % pow10((18 - self.decimals) as nat) == 0
        } else {
            d.units * pow10((self.decimals - 18) as nat) <= u128::MAX
        }
    }

    pub fn new(decimals: u8) -> (r: Converter)
        ensures
            r.decimals == decimals,
    {
        Converter { decimals }
    }

    /// The scale: the number of fractional digits of the stored integers.
    pub fn decimals(&self) -> (r: u8)
        ensures
            r == self.decimals,
    {
        self.decimals
    }

    /// `raw · 10^-decimals` as a decimal, unless it exceeds the range.
    pub fn from_unsigned(&self, raw: u128) -> (r: Option<Decimal>)
        ensures
            self.units_of(raw as nat) <= u128::MAX ==> r == Some(
                Decimal { units: self.units_of(raw as nat) as u128 },
            ),
            self.units_of(raw as nat) > u128::MAX ==> r is None,
    {
        if self.decimals <= 18 {
            let p = pow10_u128(18 - self.decimals);
            match raw.checked_mul(p) {
                Some(units) => Some(Decimal { units }),
                None => None,
            }
        } else {
            let k: u8 = self.decimals - 18;
            if k > 38 {
                proof {
                    lemma_pow10_monotonic(39, k as nat);
                    lemma_pow10_bounds();
                    assert(raw as nat / pow10(k as nat) == 0) by (nonlinear_arith)
                        requires
                            raw < pow10(k as nat),
                    ;
                }
                Some(Decimal { units: 0 })
            } else {
                let p = pow10_u128(k);
                Some(Decimal { units: raw / p })
            }
        }
    }

    /// `raw · 10^-decimals` as a decimal, unless it exceeds the range.
    pub fn from_u64(&self, raw: u64) -> (r: Option<Decimal>)
        ensures
            self.units_of(raw as nat) <= u128::MAX ==> r == Some(
                Decimal { units: self.units_of(raw as nat) as u128 },
            ),
            self.units_of(raw as nat) > u128::MAX ==> r is None,
    {
        self.from_unsigned(raw as u128)
    }

    /// `raw · 10^-decimals` as a signed decimal, unless its magnitude exceeds
    /// the range.
    pub fn from_signed(&self, raw: i128) -> (r: Option<SignedDecimal>)
        ensures
            self.units_of(vstd::math::abs(raw as int) as nat) <= u128::MAX ==> r == Some(
                SignedDecimal {
                    negative: raw < 0 && self.units_of(vstd::math::abs(raw as int) as nat) != 0,
                    units: self.units_of(vstd::math::abs(raw as int) as nat) as u128,
                },
            ),
            self.units_of(vstd::math::abs(raw as int) as nat) > u128::MAX ==> r is None,
            r matches Some(s) ==> s.wf(),
    {
        let magnitude: u128 = if raw >= 0 {
            raw as u128
        } else if raw == i128::MIN {
            170141183460469231731687303715884105728u128
        } else {
            (-raw) as u128
        };
        match self.from_unsigned(magnitude) {
            Some(d) => Some(SignedDecimal::from_parts(raw < 0, d.units)),
            None => None,
        }
    }

    /// The number of `10^-decimals` units in `d`, rounded toward zero, unless
    /// it exceeds 128 bits.
    pub fn to_unsigned(&self, d: Decimal) -> (r: Option<u128>)
        ensures
            self.raw_of(d.units as nat) <= u128::MAX ==> r == Some(
                self.raw_of(d.units as nat) as u128,
            ),
            self.raw_of(d.units as nat) > u128::MAX ==> r is None,
    {
        if self.decimals <= 18 {
            let p = pow10_u128(18 - self.decimals);
            Some(d.units / p)
        } else {
            let k: u8 = self.decimals - 18;
            if d.units == 0 {
                return Some(0);
            }
            if k > 38 {
                proof {
                    lemma_pow10_monotonic(39, k as nat);
                    lemma_pow10_bounds();
                    assert(d.units * pow10(k as nat) >= pow10(k as nat)) by (nonlinear_arith)
                        requires
                            d.units >= 1,
                    ;
                }
                return None;
            }
            let p = pow10_u128(k);
            d.units.checked_mul(p)
        }
    }
}

/// Converting a decimal to the stored integer and back gives the decimal
/// again, for every decimal that is a whole number of `10^-decimals` units.
pub proof fn lemma_converter_round_trip(c: Converter, d: Decimal)
    requires
        c.representable(d),
    ensures
        c.raw_of(d.units as nat) <= u128::MAX,
        c.units_of(c.raw_of(d.units as nat)) == d.units,
{
    if c.decimals <= 18 {
        let p = pow10((18 - c.decimals) as nat);
        lemma_pow10_positive((18 - c.decimals) as nat);
        let u = d.units as nat;
        assert(u / p <= u) by (nonlinear_arith)
            requires
                p >= 1,
        ;
        assert((u / p) * p == u) by (nonlinear_arith)
            requires
                p >= 1,
                u % p == 0,
        ;
    } else {
        let p = pow10((c.decimals - 18) as nat);
        lemma_pow10_positive((c.decimals - 18) as nat);
        let u = d.units as nat;
        assert((u * p) / p == u) by (nonlinear_arith)
            requires
                p >= 1,
        ;
    }
}

/// Converting a stored integer to a decimal and back gives the integer
/// again, for every scale of at most eighteen digits.
pub proof fn lemma_converter_round_trip_raw(c: Converter, raw: nat)
    requires
        c.decimals <= 18,
    ensures
        c.raw_of(c.units_of(raw)) == raw,
{
    let p = pow10((18 - c.decimals) as nat);
    lemma_pow10_positive((18 - c.decimals) as nat);
    assert((raw * p) / p == raw) by (nonlinear_arith)
        requires
            p >= 1,
    ;
}

/// The sum of the units of a sequence of decimals.
pub open spec fn sum_units(s: Seq<Decimal>) -> nat
    decreases s.len(),
{
    if s.len() == 0 {
        0
    } else {
        sum_units(s.drop_last()) + s.last().units as nat
    }
}

/// The sum of a prefix is at most the sum of the whole sequence.
pub proof fn lemma_sum_units_prefix(s: Seq<Decimal>, i: int)
    requires
        0 <= i <= s.len(),
    ensures
        sum_units(s.take(i)) <= sum_units(s),
    decreases s.len(),
{
    if i == s.len() {
        assert(s.take(i) =~= s);
    } else {
        assert(s.drop_last().take(i) =~= s.take(i));
        lemma_sum_units_prefix(s.drop_last(), i);
    }
}

/// The sum of the decimals, unless it exceeds the range of the type.
pub fn checked_sum(values: &Vec<Decimal>) -> (r: Option<Decimal>)
    ensures
        sum_units(values@) <= u128::MAX ==> r == Some(
            Decimal { units: sum_units(values@) as u128 },
        ),
        sum_units(values@) > u128::MAX ==> r is None,
{
    let mut total: u128 = 0;
    let mut i: usize = 0;
    while i < values.len()
        invariant
            i <= values.len(),
            total == sum_units(values@.take(i as int)),
        decreases values.len() - i,
    {
        proof {
            assert(values@.take(i + 1).drop_last() =~= values@.take(i as int));
            lemma_sum_units_prefix(values@, i + 1);
        }
        match total.checked_add(values[i].units) {
            Some(t) => {
                total = t;
            },
            None => {
                return None;
            },
        }
        i = i + 1;
    }
    proof {
        assert(values@.take(i as int) =~= values@);
    }
    Some(Decimal { units: total })
}

} // verus!
