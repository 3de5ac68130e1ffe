//! Fixed-point decimal amounts.
//!
//! An [`Amount`] stores a whole number of ten-thousandths (four fractional
//! decimal digits). Construction from a `(mantissa, scale)` decimal rounds
//! half away from zero to that precision, so every amount downstream of a
//! constructor is already normalized and all arithmetic on it is exact.

use vstd::prelude::*;

verus! {

/// Every amount carries exactly this many fractional decimal digits.
pub const FRACTIONAL_DIGITS: u32 = 4;

/// Largest decimal scale a raw mantissa may come with.
pub const MAX_SCALE: u32 = 28;

/// Largest mantissa magnitude accepted by [`Amount::new`]: 29 nines.
pub const MANTISSA_LIMIT: i128 = 99_999_999_999_999_999_999_999_999_999;

/// Largest magnitude, in ten-thousandths, that a balance accumulator may
/// hold: 33 nines, i.e. amounts up to 29 integer digits.
pub const UNITS_LIMIT: i128 = 999_999_999_999_999_999_999_999_999_999_999;

/// Ten to the `n`th power.
pub open spec fn pow10(n: nat) -> int
    decreases n,
{
    if n == 0 {
        1
    } else {
        10 * pow10((n - 1) as nat)
    }
}

/// Whether `u` ten-thousandths lie within the representable accumulator range.
pub open spec fn in_units_range(u: int) -> bool {
    -(UNITS_LIMIT as int) <= u && u <= UNITS_LIMIT as int
}

/// `m / d`, rounded half away from zero; `d` must be positive.
pub open spec fn round_half_away(m: int, d: int) -> int
    recommends
        d >= 1,
{
    let q = vstd::math::abs(m) as int / d;
    let r = vstd::math::abs(m) as int % d;
    let rounded = if 2 * r >= d {
        q + 1
    } else {
        q
    };
    if m < 0 {
        -rounded
    } else {
        rounded
    }
}

/// The number of ten-thousandths denoted by the decimal `mantissa * 10^-scale`,
/// rounded half away from zero to four fractional digits.
pub open spec fn normalized_units(mantissa: int, scale: nat) -> int {
    if scale <= FRACTIONAL_DIGITS as nat {
        mantissa * pow10((FRACTIONAL_DIGITS as nat - scale) as nat)
    } else {
        round_half_away(mantissa, pow10((scale - FRACTIONAL_DIGITS as nat) as nat))
    }
}

proof fn lemma_pow10_pos(n: nat)
    ensures
        pow10(n) >= 1,
    decreases n,
{
    if n > 0 {
        lemma_pow10_pos((n - 1) as nat);
    }
}

proof fn lemma_pow10_mono(a: nat, b: nat)
    requires
        a <= b,
    ensures
        pow10(a) <= pow10(b),
    decreases b,
{
    if a < b {
        lemma_pow10_mono(a, (b - 1) as nat);
        lemma_pow10_pos((b - 1) as nat);
    }
}

proof fn lemma_pow10_4()
    ensures
        pow10(4) == 10_000,
{
    reveal_with_fuel(pow10, 5);
}

proof fn lemma_pow10_24()
    ensures
        pow10(24) == 1_000_000_000_000_000_000_000_000,
{
    reveal_with_fuel(pow10, 25);
}

/// A money amount: a whole number of ten-thousandths of the currency unit.
///
/// The mathematical view of an `Amount` is that integer count.
#[derive(Clone, Copy, PartialEq, Eq, Structural, Debug)]
pub struct Amount {
    units: i128,
}

impl View for Amount {
    type V = int;

    closed spec fn view(&self) -> int {
        self.units as int
    }
}

/// `10^n` for small `n`, as a machine integer.
fn pow10_u128(n: u32) -> (r: u128)
    requires
        n <= 24,
    ensures
        r as int == pow10(n as nat),
{
    let mut r: u128 = 1;
    let mut i: u32 = 0;
    while i < n
        invariant
            i <= n,
            n <= 24,
            r as int == pow10(i as nat),
        decreases n - i,
    {
        proof {
            lemma_pow10_mono((i + 1) as nat, 24);
            lemma_pow10_24();
        }
        r = r * 10;
        i = i + 1;
    }
    r
}

impl Amount {
    /// The amount holding exactly `units` ten-thousandths.
    pub fn from_units(units: i128) -> (r: Amount)
        ensures
            r@ == units as int,
    {
        Amount { units }
    }

    /// The count of ten-thousandths this amount stands for.
    pub fn units(&self) -> (r: i128)
        ensures
            r as int == self@,
    {
        self.units
    }

    /// Normalizes the decimal `mantissa * 10^-scale` to four fractional
    /// digits, rounding half away from zero. This is the single point where
    /// precision is fixed: every amount entering the engine passes through it.
    pub fn new(mantissa: i128, scale: u32) -> (r: Amount)
        requires
            -(MANTISSA_LIMIT as int) <= mantissa as int <= MANTISSA_LIMIT as int,
            scale <= MAX_SCALE,
        ensures
            r@ == normalized_units(mantissa as int, scale as nat),
            in_units_range(r@),
    {
        let negative = mantissa < 0;
        let magnitude: u128 = if negative {
            (-mantissa) as u128
        } else {
            mantissa as u128
        };
        if scale <= FRACTIONAL_DIGITS {
            let factor = pow10_u128(FRACTIONAL_DIGITS - scale);
            proof {
                lemma_pow10_mono((FRACTIONAL_DIGITS - scale) as nat, 4);
                lemma_pow10_4();
                assert(magnitude * factor <= MANTISSA_LIMIT as u128 * 10_000) by (nonlinear_arith)
                    requires
                        magnitude <= MANTISSA_LIMIT as u128,
                        factor <= 10_000,
                ;
            }
            let scaled = magnitude * factor;
            let units = if negative {
                -(scaled as i128)
            } else {
                scaled as i128
            };
            proof {
                assert((mantissa as int) * (factor as int) == if mantissa < 0 {
                    -((magnitude as int) * (factor as int))
                } else {
                    (magnitude as int) * (factor as int)
                }) by (nonlinear_arith)
                    requires
                        magnitude as int == if mantissa < 0 {
                            -(mantissa as int)
                        } else {
                            mantissa as int
                        },
                ;
            }
            Amount { units }
        } else {
            let divisor = pow10_u128(scale - FRACTIONAL_DIGITS);
            proof {
                lemma_pow10_pos((scale - FRACTIONAL_DIGITS) as nat);
                lemma_pow10_mono((scale - FRACTIONAL_DIGITS) as nat, 24);
                lemma_pow10_24();
            }
            let quotient = magnitude / divisor;
            let remainder = magnitude % divisor;
            let rounded = if 2 * remainder >= divisor {
                quotient + 1
            } else {
                quotient
            };
            let units = if negative {
                -(rounded as i128)
            } else {
                rounded as i128
            };
            Amount { units }
        }
    }
}

} // verus!
