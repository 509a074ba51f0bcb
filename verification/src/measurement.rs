//! Measured quantities carried as IEEE 754 double-precision bit patterns.

use vstd::arithmetic::power2;
use vstd::prelude::*;

verus! {

pub const FRACTION_SPAN: u64 = 0x10_0000_0000_0000;

/// A measured quantity, such as a percentage or a queue length.
#[derive(Debug, Clone, Copy, PartialEq, Eq, Structural)]
pub struct Measurement {
    /// The double-precision encoding: one sign bit, eleven exponent bits and
    /// fifty-two fraction bits.
    pub bits: u64,
}

impl Measurement {
    pub open spec fn negative(self) -> bool {
        self.bits >= 0x8000_0000_0000_0000
    }

    pub open spec fn exponent_field(self) -> u64 {
        (self.bits / FRACTION_SPAN) % 2048
    }

    pub open spec fn fraction_field(self) -> u64 {
        self.bits % FRACTION_SPAN
    }

    pub open spec fn is_nan(self) -> bool {
        self.exponent_field() == 2047 && self.fraction_field() != 0
    }

    pub open spec fn is_infinite(self) -> bool {
        self.exponent_field() == 2047 && self.fraction_field() == 0
    }

    /// The magnitude of a finite measurement is `significand * 2^scale`.
    pub open spec fn significand(self) -> int {
        if self.exponent_field() == 0 {
            self.fraction_field() as int
        } else {
            self.fraction_field() + FRACTION_SPAN
        }
    }

    pub open spec fn scale(self) -> int {
        if self.exponent_field() == 0 {
            -1074
        } else {
            self.exponent_field() - 1075
        }
    }

    /// The sign of the difference between the magnitude and a whole number:
    /// the difference itself, scaled by a power of two.
    pub open spec fn magnitude_minus(self, n: nat) -> int {
        if self.scale() >= 0 {
            self.significand() * power2::pow2(self.scale() as nat) - n
        } else {
            self.significand() - n * power2::pow2((-self.scale()) as nat)
        }
    }

    /// Whether the measurement is at least `n`. Nothing holds of a quantity
    /// that is not a number.
    pub open spec fn reaches(self, n: nat) -> bool {
        if self.is_nan() {
            false
        } else if self.negative() {
            !self.is_infinite() && n == 0 && self.significand() == 0
        } else {
            self.is_infinite() || self.magnitude_minus(n) >= 0
        }
    }

    /// Whether the measurement is at most `n`. Nothing holds of a quantity
    /// that is not a number.
    pub open spec fn stays_within(self, n: nat) -> bool {
        if self.is_nan() {
            false
        } else if self.negative() {
            true
        } else {
            !self.is_infinite() && self.magnitude_minus(n) <= 0
        }
    }

    /// The order of the magnitude of a finite measurement and `n`:
    /// -1 below, 0 equal, 1 above.
    fn magnitude_order(self, n: u32) -> (order: i8)
        requires
            self.exponent_field() < 2047,
        ensures
            order == (if self.magnitude_minus(n as nat) < 0 {
                -1int
            } else if self.magnitude_minus(n as nat) == 0 {
                0
            } else {
                1
            }),
    {
        let exponent: u64 = (self.bits / FRACTION_SPAN) % 2048;
        let fraction: u64 = self.bits % FRACTION_SPAN;
        let significand: u64 = if exponent == 0 {
            fraction
        } else {
            fraction + FRACTION_SPAN
        };
        if exponent >= 1075 {
            proof {
                let scale = (exponent - 1075) as nat;
                power2::lemma_pow2_pos(scale);
                assert(significand * power2::pow2(scale) >= significand) by (nonlinear_arith)
                    requires
                        power2::pow2(scale) >= 1,
                ;
            }
            return 1;
        }
        let down: u64 = if exponent == 0 {
            1074
        } else {
            1075 - exponent
        };
        if n == 0 {
            return if significand == 0 {
                0
            } else {
                1
            };
        }
        if down >= 53 {
            proof {
                power2::lemma2_to64_rest();
                power2::lemma_pow2_adds(53, (down - 53) as nat);
                power2::lemma_pow2_pos((down - 53) as nat);
                power2::lemma_pow2_pos(down as nat);
                assert(power2::pow2(down as nat) >= power2::pow2(53)) by (nonlinear_arith)
                    requires
                        power2::pow2(53) * power2::pow2((down - 53) as nat) == power2::pow2(down as nat),
                        power2::pow2((down - 53) as nat) >= 1,
                ;
                power2::lemma_pow2_adds(52, 1);
                assert(power2::pow2(53) == 2 * FRACTION_SPAN);
                assert(n * power2::pow2(down as nat) >= power2::pow2(down as nat)) by (nonlinear_arith)
                    requires
                        n >= 1,
                        power2::pow2(down as nat) >= 1,
                ;
            }
            return -1;
        }
        let step: u128 = power_of_two(down);
        proof {
            assert(n * step <= 0x1_0000_0000 * 0x20_0000_0000_0000) by (nonlinear_arith)
                requires
                    n <= 0x1_0000_0000,
                    step <= 0x20_0000_0000_0000,
            ;
        }
        let threshold: u128 = n as u128 * step;
        if (significand as u128) < threshold {
            -1
        } else if significand as u128 == threshold {
            0
        } else {
            1
        }
    }

    pub fn at_least(self, n: u32) -> (b: bool)
        ensures
            b == self.reaches(n as nat),
    {
        let exponent: u64 = (self.bits / FRACTION_SPAN) % 2048;
        let fraction: u64 = self.bits % FRACTION_SPAN;
        if exponent == 2047 {
            return fraction == 0 && self.bits < 0x8000_0000_0000_0000;
        }
        if self.bits >= 0x8000_0000_0000_0000 {
            return n == 0 && exponent == 0 && fraction == 0;
        }
        self.magnitude_order(n) >= 0
    }

    pub fn at_most(self, n: u32) -> (b: bool)
        ensures
            b == self.stays_within(n as nat),
    {
        let exponent: u64 = (self.bits / FRACTION_SPAN) % 2048;
        let fraction: u64 = self.bits % FRACTION_SPAN;
        if exponent == 2047 {
            return fraction == 0 && self.bits >= 0x8000_0000_0000_0000;
        }
        if self.bits >= 0x8000_0000_0000_0000 {
            return true;
        }
        self.magnitude_order(n) <= 0
    }
}

fn power_of_two(k: u64) -> (power: u128)
    requires
        k <= 52,
    ensures
        power == power2::pow2(k as nat),
        power <= 0x10_0000_0000_0000,
{
    let mut power: u128 = 1;
    let mut i: u64 = 0;
    proof {
        power2::lemma2_to64();
    }
    while i < k
        invariant
            i <= k <= 52,
            power == power2::pow2(i as nat),
            power <= 0x10_0000_0000_0000,
        decreases k - i,
    {
        proof {
            power2::lemma_pow2_unfold((i + 1) as nat);
            power2::lemma_pow2_adds((i + 1) as nat, (52 - (i + 1)) as nat);
            power2::lemma_pow2_pos((52 - (i + 1)) as nat);
            power2::lemma2_to64_rest();
            assert(power2::pow2((i + 1) as nat) <= power2::pow2(52)) by (nonlinear_arith)
                requires
                    power2::pow2((i + 1) as nat) * power2::pow2((52 - (i + 1)) as nat) == power2::pow2(52),
                    power2::pow2((52 - (i + 1)) as nat) >= 1,
            ;
        }
        power = power * 2;
        i += 1;
    }
    power
}

/// A quantity that reaches `n` reaches every smaller whole number, so a hard
/// threshold implies the softer one below it.
pub proof fn reaching_is_monotone(m: Measurement, n: nat, lower: nat)
    requires
        m.reaches(n),
        lower <= n,
    ensures
        m.reaches(lower),
{
    if !m.negative() && !m.is_infinite() && m.scale() < 0 {
        let unit = power2::pow2((-m.scale()) as nat);
        assert(lower * unit <= n * unit) by (nonlinear_arith)
            requires
                lower <= n,
        ;
    }
}

/// A quantity that stays within `n` stays within every larger whole number.
pub proof fn staying_within_is_monotone(m: Measurement, n: nat, upper: nat)
    requires
        m.stays_within(n),
        n <= upper,
    ensures
        m.stays_within(upper),
{
    if !m.negative() && m.scale() < 0 {
        let unit = power2::pow2((-m.scale()) as nat);
        assert(n * unit <= upper * unit) by (nonlinear_arith)
            requires
                n <= upper,
        ;
    }
}

/// The bits of a measurement are a sign, an exponent of eleven bits and a
/// fraction of 52. It is compared as the number that they denote: the fraction
/// behind an implied one, times two to the exponent less 1075, and without the
/// implied one where the exponent is zero.
pub proof fn measurements_are_binary_fractions(
    m: Measurement,
    exponent: u64,
    fraction: u64,
    n: nat,
)
    requires
        m.bits == exponent * 0x10_0000_0000_0000 + fraction,
        exponent < 2047,
        fraction < 0x10_0000_0000_0000,
    ensures
        ({
            let whole = 0x10_0000_0000_0000 + fraction;
            &&& 1 <= exponent < 1075 ==> {
                let unit = power2::pow2((1075 - exponent) as nat);
                &&& m.reaches(n) <==> n * unit <= whole
                &&& m.stays_within(n) <==> n * unit >= whole
            }
            &&& exponent >= 1075 ==> {
                let unit = power2::pow2((exponent - 1075) as nat);
                &&& m.reaches(n) <==> n <= whole * unit
                &&& m.stays_within(n) <==> n >= whole * unit
            }
            &&& exponent == 0 ==> {
                let unit = power2::pow2(1074);
                &&& m.reaches(n) <==> n * unit <= fraction
                &&& m.stays_within(n) <==> n * unit >= fraction
            }
        }),
{
    fields_of(m, exponent, fraction);
}

proof fn fields_of(m: Measurement, exponent: u64, fraction: u64)
    requires
        m.bits == exponent * 0x10_0000_0000_0000 + fraction || m.bits == 0x8000_0000_0000_0000
            + exponent * 0x10_0000_0000_0000 + fraction,
        exponent <= 2047,
        fraction < 0x10_0000_0000_0000,
    ensures
        m.exponent_field() == exponent,
        m.fraction_field() == fraction,
        m.negative() <==> m.bits == 0x8000_0000_0000_0000 + exponent * 0x10_0000_0000_0000
            + fraction,
{
}

/// Below zero nothing is reached and every bound is kept, but that the negative
/// zero reaches zero. Infinity reaches everything and keeps within nothing, and
/// what is not a number does neither.
pub proof fn extreme_measurements(m: Measurement, exponent: u64, fraction: u64, n: nat)
    requires
        exponent <= 2047,
        fraction < 0x10_0000_0000_0000,
    ensures
        ({
            let positive = m.bits == exponent * 0x10_0000_0000_0000 + fraction;
            let negative = m.bits == 0x8000_0000_0000_0000 + exponent * 0x10_0000_0000_0000
                + fraction;
            &&& (positive || negative) && exponent == 2047 && fraction != 0 ==> !m.reaches(n)
                && !m.stays_within(n)
            &&& positive && exponent == 2047 && fraction == 0 ==> m.reaches(n) && !m.stays_within(n)
            &&& negative && exponent == 2047 && fraction == 0 ==> !m.reaches(n) && m.stays_within(n)
            &&& negative && exponent < 2047 ==> m.stays_within(n) && (m.reaches(n) <==> n == 0
                && exponent == 0 && fraction == 0)
        }),
{
    if m.bits == exponent * 0x10_0000_0000_0000 + fraction || m.bits == 0x8000_0000_0000_0000
        + exponent * 0x10_0000_0000_0000 + fraction {
        fields_of(m, exponent, fraction);
    }
}

/// Every number reaches a bound or keeps within it.
pub proof fn numbers_reach_or_stay(m: Measurement, n: nat)
    requires
        !m.is_nan(),
    ensures
        m.reaches(n) || m.stays_within(n),
{
}

} // verus!
