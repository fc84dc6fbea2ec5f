//! Single-precision numbers by their IEEE 754 bit patterns.
//!
//! The library never computes with fractions, but it stores them, compares them and
//! asks in which unit square they lie. All of that can be read off the bits.

use vstd::arithmetic::power2::{lemma2_to64, lemma_pow2_pos, lemma_pow2_strictly_increases, pow2};
use vstd::bits::{lemma_u32_shl_is_mul, lemma_u32_shr_is_div};
use vstd::prelude::*;

verus! {

/// A single-precision number, given by its bits: one for the sign, eight for the
/// exponent, twenty-three for the fraction.
#[derive(Clone, Copy, Debug, PartialEq, Eq, Structural)]
pub struct Single {
    pub bits: u32,
}

/// Three coordinates.
#[derive(Clone, Copy, Debug, PartialEq, Eq, Structural)]
pub struct Triple {
    pub x: Single,
    pub y: Single,
    pub z: Single,
}

/// Two texture coordinates.
#[derive(Clone, Copy, Debug, PartialEq, Eq, Structural)]
pub struct Pair {
    pub u: Single,
    pub v: Single,
}

/// The bit of the sign.
pub const SIGN: u32 = 0x8000_0000;

/// The magnitude bits of infinity; anything above is not a number.
pub const INFINITE: u32 = 0x7f80_0000;

/// The bits of one half.
pub const HALF: u32 = 0x3f00_0000;

/// The bits of one.
pub const ONE: u32 = 0x3f80_0000;

impl Single {
    /// The bits without the sign.
    pub open spec fn magnitude_spec(self) -> int {
        if self.bits >= SIGN {
            self.bits - SIGN
        } else {
            self.bits as int
        }
    }

    /// Not a number.
    pub open spec fn is_nan_spec(self) -> bool {
        self.magnitude_spec() > INFINITE
    }

    /// Neither infinite nor NaN.
    pub open spec fn is_finite_spec(self) -> bool {
        self.magnitude_spec() < INFINITE
    }

    /// Where a number stands on the number line: the order of these integers is the
    /// order of the numbers, and both zeros are zero.
    pub open spec fn place(self) -> int {
        if self.bits >= SIGN {
            -self.magnitude_spec()
        } else {
            self.magnitude_spec()
        }
    }

    /// Numeric equality.
    pub open spec fn equals_spec(self, other: Single) -> bool {
        !self.is_nan_spec() && !other.is_nan_spec() && self.place() == other.place()
    }

    /// Numeric order.
    pub open spec fn less_spec(self, other: Single) -> bool {
        !self.is_nan_spec() && !other.is_nan_spec() && self.place() < other.place()
    }

    /// The smaller of two numbers; a NaN gives way to the other argument.
    pub open spec fn min_spec(self, other: Single) -> Single {
        if self.is_nan_spec() {
            other
        } else if other.is_nan_spec() || self.place() <= other.place() {
            self
        } else {
            other
        }
    }

    /// The larger of two numbers; a NaN gives way to the other argument.
    pub open spec fn max_spec(self, other: Single) -> Single {
        if self.is_nan_spec() {
            other
        } else if other.is_nan_spec() || self.place() >= other.place() {
            self
        } else {
            other
        }
    }

    /// The largest whole number that is not above a positive number of 1 or more:
    /// its significand, a whole number of `2^23` steps per unit, moved by the exponent.
    pub open spec fn whole_part(self) -> nat {
        let exponent = self.magnitude_spec() / 0x80_0000;
        let significand = (0x80_0000 + self.magnitude_spec() % 0x80_0000) as nat;
        if exponent <= 150 {
            significand / pow2((150 - exponent) as nat)
        } else {
            significand * pow2((exponent - 150) as nat)
        }
    }

    /// The number rounded down and clamped to the range of `u32`. Negative numbers
    /// and NaN give 0.
    pub open spec fn floor_spec(self) -> u32 {
        if self.is_nan_spec() || self.bits >= SIGN || self.magnitude_spec() < ONE {
            0
        } else if self.whole_part() > u32::MAX {
            u32::MAX
        } else {
            self.whole_part() as u32
        }
    }

    /// Whether a positive number of 1 or more has something after the point.
    pub open spec fn has_fraction(self) -> bool {
        let exponent = self.magnitude_spec() / 0x80_0000;
        let significand = (0x80_0000 + self.magnitude_spec() % 0x80_0000) as nat;
        exponent < 150 && significand % pow2((150 - exponent) as nat) != 0
    }

    /// The number rounded up and clamped to the range of `u32`. Negative numbers and NaN
    /// give 0.
    pub open spec fn ceil_spec(self) -> u32 {
        if self.is_nan_spec() || self.bits >= SIGN || self.magnitude_spec() == 0 {
            0
        } else if self.magnitude_spec() < ONE {
            1
        } else if self.has_fraction() {
            (self.floor_spec() + 1) as u32
        } else {
            self.floor_spec()
        }
    }

    /// The bits without the sign.
    fn magnitude(self) -> (r: u32)
        ensures
            r == self.magnitude_spec(),
    {
        if self.bits >= SIGN {
            self.bits - SIGN
        } else {
            self.bits
        }
    }

    /// Whether this is not a number.
    pub fn is_nan(self) -> (r: bool)
        ensures
            r == self.is_nan_spec(),
    {
        self.magnitude() > INFINITE
    }

    /// Whether this is neither infinite nor NaN.
    pub fn is_finite(self) -> (r: bool)
        ensures
            r == self.is_finite_spec(),
    {
        self.magnitude() < INFINITE
    }

    /// Whether the two numbers are equal; NaN equals nothing.
    pub fn equals(self, other: Single) -> (r: bool)
        ensures
            r == self.equals_spec(other),
    {
        if self.is_nan() || other.is_nan() {
            false
        } else {
            self.bits == other.bits || (self.magnitude() == 0 && other.magnitude() == 0)
        }
    }

    /// Whether the first number is below the second; NaN is below nothing.
    pub fn less(self, other: Single) -> (r: bool)
        ensures
            r == self.less_spec(other),
    {
        if self.is_nan() || other.is_nan() {
            false
        } else if self.bits >= SIGN {
            if other.bits >= SIGN {
                self.magnitude() > other.magnitude()
            } else {
                self.magnitude() > 0 || other.magnitude() > 0
            }
        } else if other.bits >= SIGN {
            false
        } else {
            self.bits < other.bits
        }
    }

    /// The smaller of two numbers; a NaN gives way to the other argument.
    pub fn min(self, other: Single) -> (r: Single)
        ensures
            r == self.min_spec(other),
    {
        if self.is_nan() {
            other
        } else if other.is_nan() || !other.less(self) {
            self
        } else {
            other
        }
    }

    /// The larger of two numbers; a NaN gives way to the other argument.
    pub fn max(self, other: Single) -> (r: Single)
        ensures
            r == self.max_spec(other),
    {
        if self.is_nan() {
            other
        } else if other.is_nan() || !self.less(other) {
            self
        } else {
            other
        }
    }

    /// The number rounded down and clamped to the range of `u32`.
    pub fn floor(self) -> (r: u32)
        ensures
            r == self.floor_spec(),
    {
        if self.is_nan() || self.bits >= SIGN || self.bits < ONE {
            return 0;
        }
        let exponent: u32 = self.bits / 0x80_0000;
        let significand: u32 = 0x80_0000 + self.bits % 0x80_0000;
        proof {
            lemma2_to64();
        }
        if exponent <= 150 {
            let shift: u32 = 150 - exponent;
            proof {
                lemma_u32_shr_is_div(significand, shift);
                lemma_pow2_pos(shift as nat);
                vstd::arithmetic::div_mod::lemma_div_is_ordered_by_denominator(
                    significand as int,
                    1,
                    pow2(shift as nat) as int,
                );
            }
            significand >> shift
        } else if exponent <= 158 {
            let shift: u32 = exponent - 150;
            proof {
                if shift < 8 {
                    lemma_pow2_strictly_increases(shift as nat, 8);
                }
                assert(significand * pow2(shift as nat) <= 0xff_ffff * 256) by (nonlinear_arith)
                    requires
                        significand <= 0xff_ffff,
                        pow2(shift as nat) <= 256,
                ;
                lemma_u32_shl_is_mul(significand, shift);
            }
            significand << shift
        } else {
            proof {
                if exponent > 159 {
                    lemma_pow2_strictly_increases(9, (exponent - 150) as nat);
                }
                assert(significand * pow2((exponent - 150) as nat) >= 0x80_0000 * 512)
                    by (nonlinear_arith)
                    requires
                        significand >= 0x80_0000,
                        pow2((exponent - 150) as nat) >= 512,
                ;
            }
            u32::MAX
        }
    }

    /// The number rounded up and clamped to the range of `u32`.
    pub fn ceil(self) -> (r: u32)
        ensures
            r == self.ceil_spec(),
    {
        if self.is_nan() || self.bits >= SIGN || self.bits == 0 {
            return 0;
        }
        if self.bits < ONE {
            return 1;
        }
        let exponent: u32 = self.bits / 0x80_0000;
        let significand: u32 = 0x80_0000 + self.bits % 0x80_0000;
        let down: u32 = self.floor();
        if exponent >= 150 {
            return down;
        }
        let shift: u32 = 150 - exponent;
        proof {
            lemma2_to64();
            if shift < 23 {
                lemma_pow2_strictly_increases(shift as nat, 23);
            }
            lemma_u32_shl_is_mul(1, shift);
            lemma_pow2_pos(shift as nat);
            vstd::arithmetic::div_mod::lemma_div_is_ordered_by_denominator(
                significand as int,
                1,
                pow2(shift as nat) as int,
            );
            assert(significand / pow2(shift as nat) as u32 <= 0xff_ffff);
        }
        if significand % (1u32 << shift) != 0 {
            down + 1
        } else {
            down
        }
    }
}

impl Triple {
    /// None of the coordinates is NaN.
    pub open spec fn are_numbers(self) -> bool {
        !self.x.is_nan_spec() && !self.y.is_nan_spec() && !self.z.is_nan_spec()
    }

    /// Numeric equality of all coordinates.
    pub open spec fn equals_spec(self, other: Triple) -> bool {
        self.x.equals_spec(other.x) && self.y.equals_spec(other.y) && self.z.equals_spec(other.z)
    }

    /// Whether all coordinates are equal.
    pub fn equals(self, other: Triple) -> (r: bool)
        ensures
            r == self.equals_spec(other),
    {
        self.x.equals(other.x) && self.y.equals(other.y) && self.z.equals(other.z)
    }
}

/// Rounding down keeps the order: of two numbers the smaller one is never in a later
/// unit interval.
pub proof fn floor_is_monotone(a: Single, b: Single)
    requires
        !a.is_nan_spec(),
        !b.is_nan_spec(),
        a.place() <= b.place(),
    ensures
        a.floor_spec() <= b.floor_spec(),
{
    if a.bits < SIGN && a.bits >= ONE {
        whole_part_is_monotone(a, b);
    }
}

/// Rounding up keeps the order.
pub proof fn ceil_is_monotone(a: Single, b: Single)
    requires
        !a.is_nan_spec(),
        !b.is_nan_spec(),
        a.place() <= b.place(),
    ensures
        a.ceil_spec() <= b.ceil_spec(),
{
    if a.bits < SIGN && a.bits > 0 {
        if b.bits >= ONE && b.has_fraction() {
            fraction_counts(b, b);
        }
        if a.bits < ONE {
            if b.bits >= ONE {
                floor_is_monotone(Single { bits: ONE }, b);
                lemma2_to64();
                assert(0x80_0000nat / pow2(23) == 1);
            }
        } else {
            floor_is_monotone(a, b);
            if a.has_fraction() {
                fraction_counts(a, b);
            }
        }
    }
}

/// A number with a fraction is below the next whole number, and so is every number between
/// it and a whole number.
proof fn fraction_counts(a: Single, b: Single)
    requires
        ONE <= a.bits <= b.bits <= INFINITE,
        a.has_fraction(),
    ensures
        a.whole_part() < b.whole_part() || b.has_fraction(),
        a.whole_part() <= 0xff_ffff,
{
    let ea = a.bits as int / 0x80_0000;
    let eb = b.bits as int / 0x80_0000;
    let sa = 0x80_0000 + a.bits as int % 0x80_0000;
    let sb = 0x80_0000 + b.bits as int % 0x80_0000;
    let wide = pow2((150 - ea) as nat) as int;
    lemma_pow2_pos((150 - ea) as nat);
    vstd::arithmetic::div_mod::lemma_div_is_ordered_by_denominator(sa, 1, wide);
    assert(ea <= eb);
    if ea == eb {
        assert(sa <= sb);
        vstd::arithmetic::div_mod::lemma_fundamental_div_mod(sa, wide);
        vstd::arithmetic::div_mod::lemma_fundamental_div_mod(sb, wide);
        vstd::arithmetic::div_mod::lemma_div_is_ordered(sa, sb, wide);
    } else {
        // The next power of two lies between the two numbers.
        let c = Single { bits: ((ea + 1) * 0x80_0000) as u32 };
        whole_part_is_monotone(c, b);
        let half = pow2((149 - ea) as nat) as int;
        let q = pow2((ea - 126) as nat) as int;
        vstd::arithmetic::power2::lemma_pow2_unfold((150 - ea) as nat);
        vstd::arithmetic::power2::lemma_pow2_adds((149 - ea) as nat, (ea - 126) as nat);
        lemma2_to64();
        lemma_pow2_pos((149 - ea) as nat);
        assert(half * q == 0x80_0000);
        assert(c.bits as int / 0x80_0000 == ea + 1);
        assert(c.bits as int % 0x80_0000 == 0);
        assert(c.whole_part() == 0x80_0000nat / pow2((149 - ea) as nat));
        assert(0x80_0000int / half == q) by (nonlinear_arith)
            requires
                half * q == 0x80_0000,
                half > 0,
        ;
        assert(sa / wide < q) by (nonlinear_arith)
            requires
                wide == 2 * half,
                half * q == 0x80_0000,
                0 <= sa < 0x100_0000,
                half > 0,
        {
            assert(sa < wide * q);
        }
    }
}

/// The whole part grows with the bits.
proof fn whole_part_is_monotone(a: Single, b: Single)
    requires
        a.bits <= b.bits <= INFINITE,
    ensures
        a.whole_part() <= b.whole_part(),
{
    let ea = a.bits as int / 0x80_0000;
    let eb = b.bits as int / 0x80_0000;
    let sa = 0x80_0000 + a.bits as int % 0x80_0000;
    let sb = 0x80_0000 + b.bits as int % 0x80_0000;
    assert(ea <= eb);
    if ea == eb {
        assert(sa <= sb);
        if ea <= 150 {
            lemma_pow2_pos((150 - ea) as nat);
            vstd::arithmetic::div_mod::lemma_div_is_ordered(
                sa,
                sb,
                pow2((150 - ea) as nat) as int,
            );
        } else {
            vstd::arithmetic::mul::lemma_mul_inequality(sa, sb, pow2((ea - 150) as nat) as int);
        }
    } else {
        // One step of the exponent doubles the number, and `sa < 2 * sb`.
        assert(sa <= 2 * sb);
        if eb <= 150 {
            let wide = pow2((150 - ea) as nat) as int;
            let thin = pow2((150 - eb) as nat) as int;
            lemma_pow2_pos((150 - eb) as nat);
            pow2_doubles((150 - eb) as nat, (150 - ea) as nat);
            assert(sa / wide <= sb / thin) by (nonlinear_arith)
                requires
                    0 <= sa <= 2 * sb,
                    thin > 0,
                    wide >= 2 * thin,
            {
                let q = sa / wide;
                assert(q * wide <= sa);
                assert(q >= 0);
                assert(q * (2 * thin) <= q * wide);
                assert(q * thin <= sb);
                assert(q <= sb / thin);
            }
        } else if ea <= 150 {
            lemma_pow2_pos((150 - ea) as nat);
            lemma_pow2_pos((eb - 150) as nat);
            lemma2_to64();
            if eb - 150 > 1 {
                lemma_pow2_strictly_increases(1, (eb - 150) as nat);
            }
            let wide = pow2((150 - ea) as nat) as int;
            let up = pow2((eb - 150) as nat) as int;
            assert(sa / wide <= sb * up) by (nonlinear_arith)
                requires
                    0 <= sa <= 2 * sb,
                    wide >= 1,
                    up >= 2,
            {
                assert(sa / wide <= sa);
                assert(2 * sb <= sb * up);
            }
        } else {
            let low = pow2((ea - 150) as nat) as int;
            let high = pow2((eb - 150) as nat) as int;
            pow2_doubles((ea - 150) as nat, (eb - 150) as nat);
            assert(sa * low <= sb * high) by (nonlinear_arith)
                requires
                    0 <= sa <= 2 * sb,
                    low >= 0,
                    high >= 2 * low,
            ;
        }
    }
}

/// A larger power of two is at least twice a smaller one.
proof fn pow2_doubles(m: nat, n: nat)
    requires
        m < n,
    ensures
        pow2(n) >= 2 * pow2(m),
{
    vstd::arithmetic::power2::lemma_pow2_unfold(n);
    if m < n - 1 {
        lemma_pow2_strictly_increases(m, (n - 1) as nat);
    }
}

/// Rounding down gives the whole number at or below a number: the significand, which counts
/// steps of which there are `2^(150 - exponent)` to one, lies between that whole number and the
/// next.
pub proof fn floor_is_the_whole_number_below(x: Single)
    requires
        x.is_finite_spec(),
        x.bits < SIGN,
        ONE <= x.bits,
        x.magnitude_spec() / 0x80_0000 <= 150,
    ensures
        ({
            let steps = pow2((150 - x.magnitude_spec() / 0x80_0000) as nat) as int;
            let significand = 0x80_0000 + x.magnitude_spec() % 0x80_0000;
            x.floor_spec() * steps <= significand < (x.floor_spec() + 1) * steps
        }),
{
    let k = (150 - x.magnitude_spec() / 0x80_0000) as nat;
    let steps = pow2(k) as int;
    let significand = 0x80_0000 + x.magnitude_spec() % 0x80_0000;
    vstd::arithmetic::power2::lemma_pow2_pos(k);
    vstd::arithmetic::div_mod::lemma_fundamental_div_mod(significand, steps);
    let q = significand / steps;
    assert(0 <= significand % steps < steps) by (nonlinear_arith)
        requires
            steps > 0,
    ;
    assert(q * steps == steps * q && (q + 1) * steps == steps * q + steps) by (nonlinear_arith);
    assert(0 <= q <= significand) by (nonlinear_arith)
        requires
            significand == steps * q + significand % steps,
            0 <= significand % steps < steps,
            steps > 0,
            significand >= 0,
    ;
    assert(x.whole_part() == q);
}

/// Two points are equal exactly where they are points and have the same coordinates, each on
/// its own axis.
pub proof fn equal_points_lie_in_one_place(a: Triple, b: Triple)
    ensures
        a.equals_spec(b) <==> a.are_numbers() && b.are_numbers() && a.x.place() == b.x.place()
            && a.y.place() == b.y.place() && a.z.place() == b.z.place(),
        a.equals_spec(b) == b.equals_spec(a),
        a.are_numbers() ==> a.equals_spec(a),
{
}

} // verus!
