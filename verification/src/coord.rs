//! IEEE 754 binary64 values held as their bit patterns.
//!
//! Coordinates travel through this crate without arithmetic on them: they are
//! stored, sent, compared and clamped. All of that is decided by the bit
//! pattern alone, so a coordinate is kept as one and the comparisons below are
//! integer comparisons.

use vstd::arithmetic::mul::*;
use vstd::arithmetic::power2::*;
use vstd::prelude::*;

verus! {

/// The weight of the sign bit.
pub const SIGN: u64 = 0x8000_0000_0000_0000;

/// The bit pattern of positive infinity; a larger magnitude is a NaN.
pub const INFINITY: u64 = 0x7FF0_0000_0000_0000;

/// A binary64 value, by its bit pattern.
#[derive(Debug, Clone, Copy)]
pub struct Coord {
    pub bits: u64,
}

impl PartialEq for Coord {
    /// Equality of numbers: the two zeros are equal, and a NaN equals nothing.
    fn eq(&self, other: &Coord) -> (r: bool) {
        self.at_most(*other) && other.at_most(*self)
    }
}

impl vstd::std_specs::cmp::PartialEqSpecImpl for Coord {
    open spec fn obeys_eq_spec() -> bool {
        true
    }

    open spec fn eq_spec(&self, other: &Coord) -> bool {
        self.same(*other)
    }
}

/// The bit pattern of positive zero.
pub const ZERO: u64 = 0;

/// The bit pattern of one.
pub const ONE: u64 = 0x3FF0_0000_0000_0000;

/// The bit pattern of one half.
pub const HALF: u64 = 0x3FE0_0000_0000_0000;

impl Coord {
    /// The pattern without its sign bit.
    pub open spec fn magnitude(self) -> int {
        if self.bits >= SIGN {
            self.bits - SIGN
        } else {
            self.bits as int
        }
    }

    /// Whether the value is a NaN, which compares false with everything.
    pub open spec fn is_nan(self) -> bool {
        self.magnitude() > INFINITY
    }

    /// Where a value that is not a NaN stands in the numeric order. The two
    /// zeros share a place.
    pub open spec fn rank(self) -> int {
        if self.bits >= SIGN {
            -self.magnitude()
        } else {
            self.magnitude()
        }
    }

    /// `self < other`.
    pub open spec fn lt(self, other: Coord) -> bool {
        !self.is_nan() && !other.is_nan() && self.rank() < other.rank()
    }

    /// `self <= other`.
    pub open spec fn le(self, other: Coord) -> bool {
        !self.is_nan() && !other.is_nan() && self.rank() <= other.rank()
    }

    /// `self == other`.
    pub open spec fn same(self, other: Coord) -> bool {
        self.le(other) && other.le(self)
    }

    /// `self == 0.0`.
    pub open spec fn is_zero(self) -> bool {
        self.magnitude() == 0
    }

    /// The absolute value: the sign bit cleared.
    pub open spec fn spec_abs(self) -> Coord {
        Coord { bits: self.magnitude() as u64 }
    }

    /// `self.clamp(lo, hi)`: `lo` below `lo`, `hi` above `hi`, else `self` itself.
    pub open spec fn clamped(self, lo: Coord, hi: Coord) -> Coord {
        if self.lt(lo) {
            lo
        } else if hi.lt(self) {
            hi
        } else {
            self
        }
    }

    /// Whether the value is neither infinite nor a NaN.
    pub open spec fn is_finite(self) -> bool {
        self.magnitude() < INFINITY
    }

    /// The numeric value of a finite pattern, in units of the smallest positive one,
    /// 2^-1074.
    pub open spec fn value(self) -> int {
        if self.bits >= SIGN {
            -units(self.magnitude() as nat)
        } else {
            units(self.magnitude() as nat) as int
        }
    }

    fn mag(self) -> (r: u64)
        ensures
            r == self.magnitude(),
    {
        if self.bits >= SIGN {
            self.bits - SIGN
        } else {
            self.bits
        }
    }

    /// Whether `self` is a NaN.
    pub fn nan(self) -> (r: bool)
        ensures
            r == self.is_nan(),
    {
        self.mag() > INFINITY
    }

    /// Whether `self < other`. Always false where either is a NaN.
    pub fn less(self, other: Coord) -> (r: bool)
        ensures
            r == self.lt(other),
    {
        if self.nan() || other.nan() {
            return false;
        }
        let a = self.mag();
        let b = other.mag();
        match (self.bits >= SIGN, other.bits >= SIGN) {
            (false, false) => a < b,
            (true, true) => b < a,
            (true, false) => a != 0 || b != 0,
            (false, true) => false,
        }
    }

    /// Whether `self <= other`. Always false where either is a NaN.
    pub fn at_most(self, other: Coord) -> (r: bool)
        ensures
            r == self.le(other),
    {
        !self.nan() && !other.nan() && !other.less(self)
    }

    /// Whether `self` is one of the two zeros.
    pub fn zero(self) -> (r: bool)
        ensures
            r == self.is_zero(),
    {
        self.mag() == 0
    }

    /// The absolute value.
    pub fn abs(self) -> (r: Coord)
        ensures
            r == self.spec_abs(),
    {
        Coord { bits: self.mag() }
    }

    /// Restricts `self` to `[lo, hi]`. A NaN stays a NaN.
    pub fn clamp(self, lo: Coord, hi: Coord) -> (r: Coord)
        requires
            lo.le(hi),
        ensures
            r == self.clamped(lo, hi),
            self.is_nan() ==> r == self,
            !self.is_nan() ==> lo.le(r) && r.le(hi),
    {
        if self.less(lo) {
            lo
        } else if hi.less(self) {
            hi
        } else {
            self
        }
    }
}

/// The value of a pattern without its sign bit, in units of 2^-1074: a significand of
/// fifty-two bits, with a bit in front of them but for the smallest, and an exponent.
pub open spec fn units(magnitude: nat) -> nat {
    let exponent = magnitude / 0x10_0000_0000_0000;
    let fraction = magnitude % 0x10_0000_0000_0000;
    if exponent == 0 {
        fraction
    } else {
        (0x10_0000_0000_0000 + fraction) * pow2((exponent - 1) as nat)
    }
}

/// `p` is the product of `a` and `b`, both finite, as the standard rounds it: no finite
/// number lies strictly between the exact product and `p`.
pub open spec fn is_product(a: Coord, b: Coord, p: Coord) -> bool {
    &&& !p.is_nan()
    &&& forall|q: Coord| #[trigger]
        q.is_finite() ==> {
            &&& a.value() * b.value() <= q.value() * pow2(1074) ==> p.le(q)
            &&& q.value() * pow2(1074) <= a.value() * b.value() ==> q.le(p)
        }
}

proof fn units_grow(m: nat, n: nat)
    requires
        m <= n,
    ensures
        units(m) <= units(n),
{
    let unit: nat = 0x10_0000_0000_0000;
    let (e, f) = (m / unit, n / unit);
    let (r, s) = (m % unit, n % unit);
    if e == f {
        if e > 0 {
            lemma_mul_inequality((unit + r) as int, (unit + s) as int, pow2((e - 1) as nat) as int);
        }
    } else {
        let high = pow2((f - 1) as nat);
        assert(e < f);
        lemma_pow2_pos((f - 1) as nat);
        assert(unit * high <= (unit + s) * high) by (nonlinear_arith);
        assert(unit <= unit * high) by (nonlinear_arith)
            requires
                high >= 1,
                unit == 0x10_0000_0000_0000,
        ;
        if e > 0 {
            let low = pow2((e - 1) as nat);
            lemma_pow2_unfold(e);
            if e < f - 1 {
                lemma_pow2_strictly_increases(e, (f - 1) as nat);
            }
            assert((unit + r) * low <= unit * high) by (nonlinear_arith)
                requires
                    r < unit,
                    2 * low <= high,
            ;
        }
    }
}

/// A part of a length, rounded, is a part of that length: the product of a number from
/// zero to one with another that is not negative lies between zero and that other one.
pub proof fn part_is_within(a: Coord, b: Coord, p: Coord)
    requires
        (Coord { bits: ZERO }).le(a),
        a.le(Coord { bits: ONE }),
        (Coord { bits: ZERO }).le(b),
        b.is_finite(),
        is_product(a, b, p),
    ensures
        (Coord { bits: ZERO }).le(p),
        p.le(b),
{
    let zero = Coord { bits: ZERO };
    let one = Coord { bits: ONE };
    let scale = pow2(1074);
    lemma2_to64_rest();
    assert(units(0) == 0);
    assert(units(ONE as nat) == scale) by {
        lemma_pow2_adds(52, 1022);
    }
    units_grow(a.magnitude() as nat, ONE as nat);
    let (x, y) = (a.value(), b.value());
    assert(0 <= x <= scale);
    assert(0 <= y);
    assert(0 <= x * y <= y * scale) by (nonlinear_arith)
        requires
            0 <= x <= scale,
            0 <= y,
    ;
    assert(zero.is_finite());
    assert(zero.value() * scale == 0) by (nonlinear_arith)
        requires
            zero.value() == 0,
    ;
}

/// The order is total on everything but the NaNs.
pub proof fn order_is_total(a: Coord, b: Coord)
    requires
        !a.is_nan(),
        !b.is_nan(),
    ensures
        a.lt(b) <==> !b.le(a),
        a.le(b) && b.le(a) ==> a == b || (a.is_zero() && b.is_zero()),
{
}

/// Two numbers are equal that are the same pattern, unless it is a NaN, or both zeros;
/// no others are.
pub proof fn equality_is_that_of_numbers(a: Coord, b: Coord)
    ensures
        a.same(b) <==> !a.is_nan() && (a.bits == b.bits || a.is_zero() && b.is_zero()),
{
}

/// Clamping a second time changes nothing.
pub proof fn clamp_is_idempotent(a: Coord, lo: Coord, hi: Coord)
    requires
        lo.le(hi),
    ensures
        a.clamped(lo, hi).clamped(lo, hi) == a.clamped(lo, hi),
{
}

proof fn units_grow_strictly(m: nat, n: nat)
    requires
        m < n,
        n < INFINITY,
    ensures
        units(m) < units(n),
{
    units_grow(m, n);
    let unit: nat = 0x10_0000_0000_0000;
    let (e, f) = (m / unit, n / unit);
    let (r, s) = (m % unit, n % unit);
    if e == f {
        if e > 0 {
            let p = pow2((e - 1) as nat);
            lemma_pow2_pos((e - 1) as nat);
            assert((unit + r) * p < (unit + s) * p) by (nonlinear_arith)
                requires
                    r < s,
                    p > 0,
            ;
        }
    } else {
        let high = pow2((f - 1) as nat);
        lemma_pow2_pos((f - 1) as nat);
        assert(unit * high <= (unit + s) * high) by (nonlinear_arith);
        assert(unit <= unit * high) by (nonlinear_arith)
            requires
                high >= 1,
                unit == 0x10_0000_0000_0000,
        ;
        if e > 0 {
            let low = pow2((e - 1) as nat);
            lemma_pow2_pos((e - 1) as nat);
            lemma_pow2_unfold(e);
            if e < f - 1 {
                lemma_pow2_strictly_increases(e, (f - 1) as nat);
            }
            assert((unit + r) * low < unit * high) by (nonlinear_arith)
                requires
                    r < unit,
                    low > 0,
                    2 * low <= high,
            ;
        }
    }
}

/// The order of finite numbers is the order of their values, and so is equality; every
/// infinity lies beyond them.
pub proof fn order_is_by_value(a: Coord, b: Coord)
    requires
        a.is_finite(),
    ensures
        b.is_finite() ==> (a.lt(b) <==> a.value() < b.value()),
        b.is_finite() ==> (a.le(b) <==> a.value() <= b.value()),
        b.is_finite() ==> (a.same(b) <==> a.value() == b.value()),
        a.is_zero() <==> a.value() == 0,
        b.bits == INFINITY ==> a.lt(b) && !b.lt(a),
        b.bits == INFINITY + SIGN ==> b.lt(a) && !a.lt(b),
{
    let m = a.magnitude() as nat;
    if m > 0 {
        units_grow_strictly(0, m);
    }
    assert(units(0) == 0);
    if b.is_finite() {
        let n = b.magnitude() as nat;
        if n > 0 {
            units_grow_strictly(0, n);
        }
        if m < n {
            units_grow_strictly(m, n);
        } else if n < m {
            units_grow_strictly(n, m);
        }
    }
}

/// A NaN is a pattern whose exponent has every bit set and whose significand is not
/// zero, whatever its sign. It is below, at and above nothing.
pub proof fn nan_compares_false(a: Coord, b: Coord)
    ensures
        a.is_nan() <==> a.magnitude() / 0x10_0000_0000_0000 == 0x7FF && a.magnitude()
            % 0x10_0000_0000_0000 != 0,
        a.is_nan() ==> !a.lt(b) && !b.lt(a) && !a.le(b) && !b.le(a) && !a.same(b),
{
}

/// The absolute value is the value without its sign; it is never below zero.
pub proof fn absolute_value_has_no_sign(a: Coord)
    ensures
        a.spec_abs().value() == (if a.value() < 0 {
            -a.value()
        } else {
            a.value()
        }),
        a.spec_abs().is_nan() == a.is_nan(),
        a.spec_abs().bits < SIGN,
        a.is_finite() == a.spec_abs().is_finite(),
{
}

/// Clamping gives the nearest number within the bounds: the number itself, bit for bit,
/// where it lies within them, and otherwise the bound that it lies beyond.
pub proof fn clamp_is_nearest(a: Coord, lo: Coord, hi: Coord)
    requires
        lo.le(hi),
    ensures
        lo.le(a) && a.le(hi) ==> a.clamped(lo, hi) == a,
        a.lt(lo) ==> a.clamped(lo, hi) == lo,
        hi.lt(a) ==> a.clamped(lo, hi) == hi,
        a.is_nan() ==> a.clamped(lo, hi) == a,
{
}

/// The named numbers are what they are called.
pub proof fn named_numbers()
    ensures
        (Coord { bits: ZERO }).value() == 0,
        (Coord { bits: ONE }).value() == pow2(1074),
        (Coord { bits: HALF }).value() * 2 == pow2(1074),
{
    lemma2_to64_rest();
    assert(units(0) == 0);
    lemma_pow2_adds(52, 1022);
    lemma_pow2_adds(52, 1021);
    lemma_pow2_adds(1, 1073);
    lemma2_to64();
}

} // verus!
