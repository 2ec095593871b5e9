//! Amounts of money. An incoming amount is a decimal `mantissa / 10^scale`;
//! balances are kept as whole ten-thousandths, so that every stored amount
//! has exactly four fractional digits.

use rust_decimal::{Decimal, RoundingStrategy};
use vstd::prelude::*;

verus! {

/// One more than the largest mantissa that a decimal can carry (96 bits).
pub const MANTISSA_LIMIT: u128 = 0x1_0000_0000_0000_0000_0000_0000;

/// The largest number of fractional digits that a decimal can carry.
pub const MAX_SCALE: u32 = 28;

/// Ten to the power `n`.
pub open spec fn pow10(n: nat) -> nat
    decreases n,
{
    if n == 0 {
        1
    } else {
        10 * pow10((n - 1) as nat)
    }
}

/// `m / 10^s` rounded to at most four fractional digits, half away from zero,
/// as a mantissa and a scale: a value with four or fewer fractional digits is
/// kept as it is, any other gets scale four.
pub open spec fn rounded_to_four(m: nat, s: nat) -> (nat, nat) {
    if s <= 4 {
        (m, s)
    } else {
        ((m + 5 * pow10((s - 5) as nat)) / pow10((s - 4) as nat), 4)
    }
}

/// The amount with this mantissa and scale, if it is non-negative and fits.
pub open spec fn amount_from_parts(mantissa: i128, scale: u32) -> Option<Amount> {
    if 0 <= mantissa < MANTISSA_LIMIT && scale <= MAX_SCALE {
        Some(Amount { mantissa: mantissa as u128, scale })
    } else {
        None
    }
}

/// A non-negative decimal amount `mantissa / 10^scale`, as it arrives.
#[derive(Clone, Copy, Debug, PartialEq, Eq, Structural)]
pub struct Amount {
    pub mantissa: u128,
    pub scale: u32,
}

impl Amount {
    /// The amount fits in a decimal: a 96-bit mantissa and at most 28 digits.
    pub open spec fn wf(self) -> bool {
        self.mantissa < MANTISSA_LIMIT && self.scale <= MAX_SCALE
    }

    /// The amount rounded to four fractional digits, in ten-thousandths.
    pub open spec fn units(self) -> int {
        if self.scale <= 4 {
            self.mantissa * pow10((4 - self.scale) as nat)
        } else {
            rounded_to_four(self.mantissa as nat, self.scale as nat).0 as int
        }
    }

    pub fn new(mantissa: u128, scale: u32) -> (r: Amount)
        requires
            mantissa < MANTISSA_LIMIT,
            scale <= MAX_SCALE,
        ensures
            r.mantissa == mantissa,
            r.scale == scale,
            r.wf(),
    {
        Amount { mantissa, scale }
    }

    /// The amount that a decimal's mantissa and scale spell, where it is
    /// non-negative and fits.
    pub fn from_parts(mantissa: i128, scale: u32) -> (r: Option<Amount>)
        ensures
            r == amount_from_parts(mantissa, scale),
            r matches Some(a) ==> a.wf(),
    {
        if 0 <= mantissa && mantissa < MANTISSA_LIMIT as i128 && scale <= MAX_SCALE {
            Some(Amount { mantissa: mantissa as u128, scale })
        } else {
            None
        }
    }

    /// The amount rounded to four fractional digits, in ten-thousandths.
    pub fn to_units(self) -> (r: i128)
        requires
            self.wf(),
        ensures
            r == self.units(),
            0 <= r < MANTISSA_LIMIT * 10000,
    {
        let (m, s) = round_to_four_places(self.mantissa, self.scale);
        proof {
            lemma_rounded_not_larger(self.mantissa as nat, self.scale as nat);
            reveal_with_fuel(pow10, 5);
        }
        let factor: i128 = if s == 0 {
            10000
        } else if s == 1 {
            1000
        } else if s == 2 {
            100
        } else if s == 3 {
            10
        } else {
            1
        };
        assert(m * factor < MANTISSA_LIMIT * 10000) by (nonlinear_arith)
            requires
                m < MANTISSA_LIMIT,
                1 <= factor <= 10000,
        ;
        (m as i128) * factor
    }
}

/// Every power of ten is positive.
pub proof fn lemma_pow10_positive(n: nat)
    ensures
        pow10(n) > 0,
    decreases n,
{
    if n > 0 {
        lemma_pow10_positive((n - 1) as nat);
    }
}

/// Rounding keeps a mantissa from growing.
pub proof fn lemma_rounded_not_larger(m: nat, s: nat)
    ensures
        rounded_to_four(m, s).0 <= m,
        rounded_to_four(m, s).1 <= 4,
{
    if s > 4 {
        let h = 5 * pow10((s - 5) as nat);
        let p = pow10((s - 4) as nat);
        assert(p == 10 * pow10((s - 5) as nat));
        lemma_pow10_positive((s - 5) as nat);
        if m == 0 {
            assert(h / p == 0) by (nonlinear_arith)
                requires
                    p == 2 * h,
                    h > 0,
            ;
        } else {
            assert((m + h) / p <= m) by (nonlinear_arith)
                requires
                    p == 2 * h,
                    h > 0,
                    m >= 1,
            ;
        }
    }
}

/// Relies on `Decimal::round_dp_with_strategy` with `MidpointAwayFromZero`:
/// a value with `scale` at most four comes back as it is; any other is
/// divided by `10^(scale - 4)`, rounded half away from zero, at scale four.
#[verifier::external_body]
fn round_to_four_places(mantissa: u128, scale: u32) -> (r: (u128, u32))
    requires
        mantissa < MANTISSA_LIMIT,
        scale <= MAX_SCALE,
    ensures
        r.0 == rounded_to_four(mantissa as nat, scale as nat).0,
        r.1 == rounded_to_four(mantissa as nat, scale as nat).1,
{
    let d = Decimal::from_i128_with_scale(mantissa as i128, scale);
    let r = d.round_dp_with_strategy(4, RoundingStrategy::MidpointAwayFromZero);
    (r.mantissa() as u128, r.scale())
}

/// What `Decimal::from_str` reads from a text: the mantissa and the scale of
/// the decimal, or nothing where the text is no decimal.
pub uninterp spec fn decimal_parts_of(s: Seq<char>) -> Option<(i128, u32)>;

/// Relies on `Decimal::from_str`: the decimal that a text spells, as its
/// mantissa and scale.
#[verifier::external_body]
pub(crate) fn parse_decimal(s: &str) -> (r: Option<(i128, u32)>)
    ensures
        r == decimal_parts_of(s@),
{
    match s.parse::<Decimal>() {
        Ok(d) => Some((d.mantissa(), d.scale())),
        Err(_) => None,
    }
}

} // verus!
