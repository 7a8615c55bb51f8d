//! Exact rational scalars.
//!
//! Every scalar the locator works with (depths, matrix entries, pixel-space
//! box coordinates) is a rational number `num / den` held in canonical form:
//! the denominator is positive and both components stay within `RAT_BOUND`.
//! Arithmetic is exact; an operation whose reduced result would leave the
//! representable range reports `None` instead of returning a wrong value.

use vstd::prelude::*;
use vstd::arithmetic::div_mod::{
    lemma_fundamental_div_mod, lemma_div_multiples_vanish, lemma_mod_multiples_basic,
    lemma_mod_multiples_vanish, lemma_mod_self_0, lemma_small_mod,
};

verus! {

/// Magnitude bound kept by every well-formed `Rat` component: 2^62.
pub const RAT_BOUND: i64 = 0x4000_0000_0000_0000;

/// Bound on the intermediate (pre-reduction) numerators and denominators
/// that `reduce` accepts: 2^125.
pub const WIDE_LIM: i128 = 0x2000_0000_0000_0000_0000_0000_0000_0000;

/// Bound on a single product of two well-formed components: 2^124.
pub const WIDE_HALF: i128 = 0x1000_0000_0000_0000_0000_0000_0000_0000;

/// Absolute value over the mathematical integers.
pub open spec fn iabs(n: int) -> int {
    if n < 0 {
        -n
    } else {
        n
    }
}

/// An exact rational number.
#[derive(Clone, Copy, PartialEq, Eq, Structural, Debug)]
pub struct Rat {
    pub num: i64,
    pub den: i64,
}

impl Rat {
    /// Well-formedness: positive, bounded denominator and bounded numerator.
    pub open spec fn wf(self) -> bool {
        0 < self.den <= RAT_BOUND && -RAT_BOUND <= self.num as int <= RAT_BOUND
    }

    /// The two rationals denote the same value (cross multiplication).
    pub open spec fn eqv(self, other: Rat) -> bool {
        self.num * other.den == other.num * self.den
    }

    /// This rational denotes the integer fraction `n / d`.
    pub open spec fn is_frac(self, n: int, d: int) -> bool {
        self.num * d == n * self.den
    }

    /// Value order: `self < other` (both well-formed).
    pub open spec fn spec_lt(self, other: Rat) -> bool {
        self.num * other.den < other.num * self.den
    }

    /// Value order: `self <= other` (both well-formed).
    pub open spec fn spec_le(self, other: Rat) -> bool {
        self.num * other.den <= other.num * self.den
    }
}

/// Greatest common divisor of two non-negative integers (Euclid).
pub open spec fn spec_gcd(a: int, b: int) -> int
    decreases b when 0 <= b
{
    if b <= 0 {
        a
    } else {
        spec_gcd(b, a % b)
    }
}

/// `spec_gcd` of non-negative arguments with a positive one among them is
/// positive and divides both arguments.
pub proof fn lemma_gcd_props(a: int, b: int)
    requires
        0 <= a,
        0 <= b,
        a + b > 0,
    ensures
        spec_gcd(a, b) > 0,
        a % spec_gcd(a, b) == 0,
        b % spec_gcd(a, b) == 0,
    decreases b,
{
    if b == 0 {
        assert(spec_gcd(a, b) == a);
        lemma_mod_self_0(a);
        lemma_small_mod(0, a as nat);
    } else {
        let r = a % b;
        assert(0 <= r < b);
        lemma_gcd_props(b, r);
        let g = spec_gcd(b, r);
        assert(spec_gcd(a, b) == g);
        // a == b * (a / b) + r, and both b and r are multiples of g.
        lemma_fundamental_div_mod(a, b);
        lemma_fundamental_div_mod(b, g);
        assert(b == g * (b / g)) by {
            assert(b % g == 0);
        }
        assert(b * (a / b) == g * ((b / g) * (a / b))) by (nonlinear_arith)
            requires b == g * (b / g);
        assert(a == g * ((b / g) * (a / b)) + r);
        lemma_mod_multiples_vanish((b / g) * (a / b), r, g);
        assert(a % g == r % g);
    }
}

/// Reduction of a wide intermediate fraction `n / d` (with `d > 0`) to
/// canonical bounded form; `None` when even the reduced form does not fit.
pub open spec fn spec_reduce(n: int, d: int) -> Option<Rat> {
    let g = spec_gcd(iabs(n), d);
    let qn = n / g;
    let qd = d / g;
    if -RAT_BOUND <= qn <= RAT_BOUND && 0 < qd <= RAT_BOUND {
        Some(Rat { num: qn as i64, den: qd as i64 })
    } else {
        None
    }
}

/// What reduction guarantees: the reduced rational is well-formed and
/// denotes exactly `n / d`; and a fraction already within bounds reduces
/// successfully.
pub proof fn lemma_reduce_props(n: int, d: int)
    requires
        0 < d,
    ensures
        spec_reduce(n, d) matches Some(r) ==> r.wf() && r.is_frac(n, d),
        -RAT_BOUND <= n <= RAT_BOUND && d <= RAT_BOUND ==> spec_reduce(n, d) is Some,
{
    let g = spec_gcd(iabs(n), d);
    lemma_gcd_props(iabs(n), d);
    let qn = n / g;
    let qd = d / g;
    // n and d are exact multiples of g.
    lemma_fundamental_div_mod(d, g);
    assert(d == g * qd) by {
        assert(d % g == 0);
    }
    lemma_fundamental_div_mod(iabs(n), g);
    assert(iabs(n) == g * (iabs(n) / g)) by {
        assert(iabs(n) % g == 0);
    }
    if n >= 0 {
        assert(iabs(n) == n);
        assert(n == g * qn) by {
            lemma_fundamental_div_mod(n, g);
            assert(n % g == 0);
        }
    } else {
        let k = iabs(n) / g;
        assert(n == g * (-k)) by (nonlinear_arith)
            requires iabs(n) == g * k, n < 0, iabs(n) == -n;
        lemma_div_multiples_vanish(-k, g);
        assert((g * (-k)) / g == -k);
        assert(qn == -k);
        assert(n == g * qn);
    }
    // Positivity of the reduced denominator.
    assert(qd > 0) by (nonlinear_arith)
        requires d == g * qd, d > 0, g > 0;
    // The reduced fraction denotes the same value: qn * d == n * qd.
    assert(qn * d == n * qd) by (nonlinear_arith)
        requires n == g * qn, d == g * qd;
    // Magnitudes only shrink under reduction.
    assert(iabs(qn) <= iabs(n) && qd <= d) by (nonlinear_arith)
        requires n == g * qn, d == g * qd, g >= 1, d > 0, qd > 0;
    if spec_reduce(n, d) is Some {
        let r = spec_reduce(n, d)->Some_0;
        assert(r.num == qn && r.den == qd);
        assert(r.wf());
        assert(r.is_frac(n, d));
    }
}

/// Euclid's algorithm on machine words.
pub fn gcd_u128(a0: u128, b0: u128) -> (g: u128)
    ensures
        g as int == spec_gcd(a0 as int, b0 as int),
{
    let mut a: u128 = a0;
    let mut b: u128 = b0;
    while b != 0
        invariant
            spec_gcd(a as int, b as int) == spec_gcd(a0 as int, b0 as int),
        decreases b,
    {
        let t: u128 = a % b;
        a = b;
        b = t;
    }
    a
}

/// Reduce the wide fraction `n / d` to canonical form.
fn reduce(n: i128, d: i128) -> (r: Option<Rat>)
    requires
        0 < d <= WIDE_LIM,
        -WIDE_LIM <= n <= WIDE_LIM,
    ensures
        r == spec_reduce(n as int, d as int),
        r matches Some(x) ==> x.wf() && x.is_frac(n as int, d as int),
        -RAT_BOUND <= n <= RAT_BOUND && d <= RAT_BOUND ==> r is Some,
{
    proof {
        lemma_reduce_props(n as int, d as int);
    }
    let n_abs: u128 = if n < 0 { (-n) as u128 } else { n as u128 };
    assert(n_abs as int == iabs(n as int));
    let g: u128 = gcd_u128(n_abs, d as u128);
    proof {
        lemma_gcd_props(iabs(n as int), d as int);
    }
    assert(g as int == spec_gcd(iabs(n as int), d as int));
    assert(g > 0);
    let qn_abs: u128 = n_abs / g;
    let qd: u128 = (d as u128) / g;
    proof {
        let gi = g as int;
        let qni = (n as int) / gi;
        let qdi = (d as int) / gi;
        lemma_fundamental_div_mod(iabs(n as int), gi);
        lemma_fundamental_div_mod(d as int, gi);
        assert(iabs(n as int) == gi * (iabs(n as int) / gi));
        assert(d as int == gi * qdi);
        assert(qn_abs as int == iabs(n as int) / gi);
        assert(qd as int == qdi);
        assert(qdi > 0) by (nonlinear_arith)
            requires d as int == gi * qdi, d > 0, gi > 0, qdi >= 0;
        // Connect the magnitude quotient to the signed spec quotient.
        if n < 0 {
            let k = iabs(n as int) / gi;
            assert(n as int == gi * (-k)) by (nonlinear_arith)
                requires iabs(n as int) == gi * k, n < 0, iabs(n as int) == -(n as int);
            lemma_div_multiples_vanish(-k, gi);
            assert((gi * (-k)) / gi == -k);
            assert(qni == -k);
            assert(qn_abs as int == iabs(qni));
        } else {
            assert(iabs(n as int) == n as int);
            assert(qni == qn_abs as int);
            assert(qn_abs as int == iabs(qni));
        }
    }
    let bound_u: u128 = RAT_BOUND as u128;
    if qn_abs <= bound_u && qd <= bound_u {
        let num: i64 = if n < 0 {
            -(qn_abs as i64)
        } else {
            qn_abs as i64
        };
        let den: i64 = qd as i64;
        proof {
            let gi = g as int;
            let qni = (n as int) / gi;
            assert(num as int == qni);
            assert(den as int == (d as int) / gi);
            assert(-RAT_BOUND <= qni <= RAT_BOUND);
            assert(spec_reduce(n as int, d as int) == Some(Rat { num, den }));
        }
        Some(Rat { num, den })
    } else {
        proof {
            let gi = g as int;
            let qni = (n as int) / gi;
            let qdi = (d as int) / gi;
            if -RAT_BOUND <= qni <= RAT_BOUND && 0 < qdi <= RAT_BOUND {
                assert(iabs(qni) <= RAT_BOUND);
                assert(qn_abs <= bound_u && qd <= bound_u);
                assert(false);
            }
            assert(spec_reduce(n as int, d as int) is None);
        }
        None
    }
}

/// Exact sum mirror: the reduced value of `a + b`.
pub open spec fn spec_add(a: Rat, b: Rat) -> Option<Rat> {
    spec_reduce(a.num * b.den + b.num * a.den, a.den * b.den)
}

/// Exact difference mirror: the reduced value of `a - b`.
pub open spec fn spec_sub(a: Rat, b: Rat) -> Option<Rat> {
    spec_reduce(a.num * b.den - b.num * a.den, a.den * b.den)
}

/// Exact product mirror: the reduced value of `a * b`.
pub open spec fn spec_mul(a: Rat, b: Rat) -> Option<Rat> {
    spec_reduce(a.num * b.num, a.den * b.den)
}

/// Exact quotient mirror: the reduced value of `a / b`; `None` on a zero
/// divisor.
pub open spec fn spec_div(a: Rat, b: Rat) -> Option<Rat> {
    if b.num == 0 {
        None
    } else if b.num > 0 {
        spec_reduce(a.num * b.den, a.den * b.num)
    } else {
        spec_reduce(-(a.num * b.den), a.den * (-b.num))
    }
}

impl Rat {
    /// The rational `n / 1`.
    pub fn from_int(n: i64) -> (r: Rat)
        requires
            -RAT_BOUND <= n <= RAT_BOUND,
        ensures
            r.wf(),
            r.num == n,
            r.den == 1,
    {
        Rat { num: n, den: 1 }
    }

    /// The rational `n / d` in canonical form; `None` when `d` is zero or
    /// the reduced fraction does not fit.
    pub fn new(n: i64, d: i64) -> (r: Option<Rat>)
        ensures
            d != 0 ==> r == spec_reduce(
                if d < 0 { -(n as int) } else { n as int },
                iabs(d as int),
            ),
            d == 0 ==> r is None,
            r matches Some(x) ==> x.wf() && d != 0 && x.is_frac(n as int, d as int),
    {
        if d == 0 {
            return None;
        }
        let (nw, dw): (i128, i128) = if d < 0 {
            (-(n as i128), -(d as i128))
        } else {
            (n as i128, d as i128)
        };
        let r = reduce(nw, dw);
        proof {
            if r is Some {
                let x = r->Some_0;
                assert(x.is_frac(nw as int, dw as int));
                assert(x.num * (d as int) == (n as int) * x.den) by (nonlinear_arith)
                    requires
                        x.num * (dw as int) == (nw as int) * x.den,
                        d < 0 ==> nw as int == -(n as int) && dw as int == -(d as int),
                        d >= 0 ==> nw as int == n as int && dw as int == d as int;
            }
        }
        r
    }

    /// The rational zero.
    pub fn zero() -> (r: Rat)
        ensures
            r.wf(),
            r.num == 0,
            r.den == 1,
    {
        Rat { num: 0, den: 1 }
    }

    /// Exact sum.
    pub fn try_add(&self, other: &Rat) -> (r: Option<Rat>)
        requires
            self.wf(),
            other.wf(),
        ensures
            r == spec_add(*self, *other),
            r matches Some(x) ==> x.wf() && x.is_frac(
                self.num * other.den + other.num * self.den,
                self.den * other.den,
            ),
    {
        let an = self.num as i128;
        let ad = self.den as i128;
        let bn = other.num as i128;
        let bd = other.den as i128;
        assert(-WIDE_HALF <= an * bd <= WIDE_HALF && -WIDE_HALF <= bn * ad <= WIDE_HALF
            && 0 < ad * bd <= WIDE_HALF) by (nonlinear_arith)
            requires
                -RAT_BOUND <= an <= RAT_BOUND,
                0 < ad <= RAT_BOUND,
                -RAT_BOUND <= bn <= RAT_BOUND,
                0 < bd <= RAT_BOUND,
                RAT_BOUND == 0x4000_0000_0000_0000,
                WIDE_HALF == 0x1000_0000_0000_0000_0000_0000_0000_0000;
        let n: i128 = an * bd + bn * ad;
        let d: i128 = ad * bd;
        reduce(n, d)
    }

    /// Exact difference.
    pub fn try_sub(&self, other: &Rat) -> (r: Option<Rat>)
        requires
            self.wf(),
            other.wf(),
        ensures
            r == spec_sub(*self, *other),
            r matches Some(x) ==> x.wf() && x.is_frac(
                self.num * other.den - other.num * self.den,
                self.den * other.den,
            ),
    {
        let an = self.num as i128;
        let ad = self.den as i128;
        let bn = other.num as i128;
        let bd = other.den as i128;
        assert(-WIDE_HALF <= an * bd <= WIDE_HALF && -WIDE_HALF <= bn * ad <= WIDE_HALF
            && 0 < ad * bd <= WIDE_HALF) by (nonlinear_arith)
            requires
                -RAT_BOUND <= an <= RAT_BOUND,
                0 < ad <= RAT_BOUND,
                -RAT_BOUND <= bn <= RAT_BOUND,
                0 < bd <= RAT_BOUND,
                RAT_BOUND == 0x4000_0000_0000_0000,
                WIDE_HALF == 0x1000_0000_0000_0000_0000_0000_0000_0000;
        let n: i128 = an * bd - bn * ad;
        let d: i128 = ad * bd;
        reduce(n, d)
    }

    /// Exact product.
    pub fn try_mul(&self, other: &Rat) -> (r: Option<Rat>)
        requires
            self.wf(),
            other.wf(),
        ensures
            r == spec_mul(*self, *other),
            r matches Some(x) ==> x.wf() && x.is_frac(
                self.num * other.num,
                self.den * other.den,
            ),
    {
        let an = self.num as i128;
        let ad = self.den as i128;
        let bn = other.num as i128;
        let bd = other.den as i128;
        assert(-WIDE_LIM < an * bn < WIDE_LIM && 0 < ad * bd < WIDE_LIM) by (nonlinear_arith)
            requires
                -RAT_BOUND <= an <= RAT_BOUND,
                0 < ad <= RAT_BOUND,
                -RAT_BOUND <= bn <= RAT_BOUND,
                0 < bd <= RAT_BOUND,
                RAT_BOUND == 0x4000_0000_0000_0000,
                WIDE_LIM == 0x2000_0000_0000_0000_0000_0000_0000_0000;
        let n: i128 = an * bn;
        let d: i128 = ad * bd;
        reduce(n, d)
    }

    /// Exact quotient; `None` when `other` is zero.
    pub fn try_div(&self, other: &Rat) -> (r: Option<Rat>)
        requires
            self.wf(),
            other.wf(),
        ensures
            r == spec_div(*self, *other),
            r matches Some(x) ==> x.wf() && other.num != 0 && x.is_frac(
                self.num * other.den,
                self.den * other.num,
            ),
    {
        if other.num == 0 {
            return None;
        }
        let an = self.num as i128;
        let ad = self.den as i128;
        let bn = other.num as i128;
        let bd = other.den as i128;
        assert(-WIDE_HALF <= an * bd <= WIDE_HALF
            && -WIDE_HALF <= ad * bn <= WIDE_HALF && ad * bn != 0
            && -WIDE_HALF <= ad * (-bn) <= WIDE_HALF) by (nonlinear_arith)
            requires
                -RAT_BOUND <= an <= RAT_BOUND,
                0 < ad <= RAT_BOUND,
                -RAT_BOUND <= bn <= RAT_BOUND,
                bn != 0,
                0 < bd <= RAT_BOUND,
                RAT_BOUND == 0x4000_0000_0000_0000,
                WIDE_HALF == 0x1000_0000_0000_0000_0000_0000_0000_0000;
        let r = if other.num > 0 {
            reduce(an * bd, ad * bn)
        } else {
            assert(0 < ad * (-bn)) by (nonlinear_arith)
                requires ad > 0, bn < 0;
            reduce(-(an * bd), ad * (-bn))
        };
        proof {
            if r is Some {
                let x = r->Some_0;
                assert(x.num * (self.den * other.num) == (self.num * other.den) * x.den)
                    by (nonlinear_arith)
                    requires
                        other.num > 0 ==> x.num * (ad * bn) == (an * bd) * x.den,
                        other.num < 0 ==> x.num * (ad * (-bn)) == (-(an * bd)) * x.den,
                        other.num != 0,
                        an == self.num, ad == self.den, bn == other.num, bd == other.den;
            }
        }
        r
    }

    /// Exact negation (always representable).
    pub fn neg(&self) -> (r: Rat)
        requires
            self.wf(),
        ensures
            r.wf(),
            r == spec_neg(*self),
            r.num == -self.num,
            r.den == self.den,
    {
        Rat { num: -self.num, den: self.den }
    }

    /// Exact absolute value (always representable).
    pub fn abs_val(&self) -> (r: Rat)
        requires
            self.wf(),
        ensures
            r.wf(),
            r == spec_abs(*self),
            r.num as int == iabs(self.num as int),
            r.den == self.den,
    {
        if self.num < 0 {
            Rat { num: -self.num, den: self.den }
        } else {
            *self
        }
    }

    /// Value comparison: `self < other`.
    pub fn lt(&self, other: &Rat) -> (r: bool)
        requires
            self.wf(),
            other.wf(),
        ensures
            r == self.spec_lt(*other),
    {
        proof {
            assert(-WIDE_HALF <= (self.num as int) * (other.den as int) <= WIDE_HALF
                && -WIDE_HALF <= (other.num as int) * (self.den as int) <= WIDE_HALF)
                by (nonlinear_arith)
                requires
                    -RAT_BOUND <= self.num as int <= RAT_BOUND,
                    0 < self.den as int <= RAT_BOUND,
                    -RAT_BOUND <= other.num as int <= RAT_BOUND,
                    0 < other.den as int <= RAT_BOUND,
                    RAT_BOUND == 0x4000_0000_0000_0000,
                    WIDE_HALF == 0x1000_0000_0000_0000_0000_0000_0000_0000;
        }
        let lhs: i128 = (self.num as i128) * (other.den as i128);
        let rhs: i128 = (other.num as i128) * (self.den as i128);
        lhs < rhs
    }

    /// Value comparison: `self <= other`.
    pub fn le(&self, other: &Rat) -> (r: bool)
        requires
            self.wf(),
            other.wf(),
        ensures
            r == self.spec_le(*other),
    {
        proof {
            assert(-WIDE_HALF <= (self.num as int) * (other.den as int) <= WIDE_HALF
                && -WIDE_HALF <= (other.num as int) * (self.den as int) <= WIDE_HALF)
                by (nonlinear_arith)
                requires
                    -RAT_BOUND <= self.num as int <= RAT_BOUND,
                    0 < self.den as int <= RAT_BOUND,
                    -RAT_BOUND <= other.num as int <= RAT_BOUND,
                    0 < other.den as int <= RAT_BOUND,
                    RAT_BOUND == 0x4000_0000_0000_0000,
                    WIDE_HALF == 0x1000_0000_0000_0000_0000_0000_0000_0000;
        }
        let lhs: i128 = (self.num as i128) * (other.den as i128);
        let rhs: i128 = (other.num as i128) * (self.den as i128);
        lhs <= rhs
    }

    /// Value equality (denotes the same rational value).
    pub fn val_eq(&self, other: &Rat) -> (r: bool)
        requires
            self.wf(),
            other.wf(),
        ensures
            r == self.eqv(*other),
    {
        proof {
            assert(-WIDE_HALF <= (self.num as int) * (other.den as int) <= WIDE_HALF
                && -WIDE_HALF <= (other.num as int) * (self.den as int) <= WIDE_HALF)
                by (nonlinear_arith)
                requires
                    -RAT_BOUND <= self.num as int <= RAT_BOUND,
                    0 < self.den as int <= RAT_BOUND,
                    -RAT_BOUND <= other.num as int <= RAT_BOUND,
                    0 < other.den as int <= RAT_BOUND,
                    RAT_BOUND == 0x4000_0000_0000_0000,
                    WIDE_HALF == 0x1000_0000_0000_0000_0000_0000_0000_0000;
        }
        let lhs: i128 = (self.num as i128) * (other.den as i128);
        let rhs: i128 = (other.num as i128) * (self.den as i128);
        lhs == rhs
    }

    /// Whether this rational is exactly zero.
    pub fn is_zero(&self) -> (r: bool)
        requires
            self.wf(),
        ensures
            r == (self.num == 0),
    {
        self.num == 0
    }
}

/// The exact negation of a rational.
pub open spec fn spec_neg(r: Rat) -> Rat {
    Rat { num: (-r.num) as i64, den: r.den }
}

/// The exact absolute value of a rational.
pub open spec fn spec_abs(r: Rat) -> Rat {
    if r.num < 0 {
        Rat { num: (-r.num) as i64, den: r.den }
    } else {
        r
    }
}

/// Rounding of a well-formed rational to the nearest integer, halves away
/// from zero.
pub open spec fn spec_round(r: Rat) -> int {
    if r.num >= 0 {
        (2 * r.num + r.den) / (2 * r.den)
    } else {
        -((2 * (-r.num) + r.den) / (2 * r.den))
    }
}

impl Rat {
    /// Round to the nearest integer, halves away from zero.
    pub fn round(&self) -> (r: i64)
        requires
            self.wf(),
        ensures
            r as int == spec_round(*self),
    {
        let n_abs: u128 = if self.num < 0 {
            (-(self.num as i128)) as u128
        } else {
            self.num as u128
        };
        let d: u128 = self.den as u128;
        let q: u128 = (2 * n_abs + d) / (2 * d);
        proof {
            let qi = (2 * (n_abs as int) + d as int) / (2 * (d as int));
            lemma_fundamental_div_mod(2 * (n_abs as int) + d as int, 2 * (d as int));
            assert(qi >= 0) by (nonlinear_arith)
                requires
                    2 * (n_abs as int) + d as int == 2 * (d as int) * qi
                        + (2 * (n_abs as int) + d as int) % (2 * (d as int)),
                    0 <= (2 * (n_abs as int) + d as int) % (2 * (d as int)),
                    n_abs >= 0,
                    d > 0;
            assert(qi <= RAT_BOUND) by (nonlinear_arith)
                requires
                    2 * (n_abs as int) + d as int == 2 * (d as int) * qi
                        + (2 * (n_abs as int) + d as int) % (2 * (d as int)),
                    0 <= (2 * (n_abs as int) + d as int) % (2 * (d as int)),
                    qi >= 0,
                    n_abs <= RAT_BOUND,
                    0 < d <= RAT_BOUND,
                    RAT_BOUND == 0x4000_0000_0000_0000;
        }
        if self.num < 0 {
            -(q as i64)
        } else {
            q as i64
        }
    }
}

/// The value order on well-formed rationals is transitive.
pub proof fn lemma_le_trans(a: Rat, b: Rat, c: Rat)
    requires
        a.wf(),
        b.wf(),
        c.wf(),
        a.spec_le(b),
        b.spec_le(c),
    ensures
        a.spec_le(c),
{
    assert(a.num * c.den <= c.num * a.den) by (nonlinear_arith)
        requires
            a.num * b.den <= b.num * a.den,
            b.num * c.den <= c.num * b.den,
            a.den > 0,
            b.den > 0,
            c.den > 0;
}

/// Floor of a rational clamped below at zero (matches clamping a box edge
/// to the raster's origin before truncating).
pub open spec fn spec_floor_clamp0(r: Rat) -> int {
    if r.num <= 0 {
        0
    } else {
        (r.num as int) / (r.den as int)
    }
}

/// Ceiling of a rational, with negative values clamped to zero (a negative
/// pixel coordinate saturates at the raster's origin).
pub open spec fn spec_ceil_clamp0(r: Rat) -> int {
    if r.num <= 0 {
        0
    } else {
        (r.num + r.den - 1) / (r.den as int)
    }
}

impl Rat {
    /// See `spec_floor_clamp0`.
    pub fn floor_clamp0(&self) -> (r: u64)
        requires
            self.wf(),
        ensures
            r as int == spec_floor_clamp0(*self),
    {
        if self.num <= 0 {
            0
        } else {
            (self.num as u64) / (self.den as u64)
        }
    }

    /// See `spec_ceil_clamp0`.
    pub fn ceil_clamp0(&self) -> (r: u64)
        requires
            self.wf(),
        ensures
            r as int == spec_ceil_clamp0(*self),
    {
        if self.num <= 0 {
            0
        } else {
            ((self.num as u64) + (self.den as u64) - 1) / (self.den as u64)
        }
    }
}

} // verus!

verus! {

/// What each exact operation denotes, stated over the operand components.
pub proof fn lemma_op_frac(a: Rat, b: Rat)
    requires
        a.wf(),
        b.wf(),
    ensures
        spec_add(a, b) matches Some(r) ==> r.wf()
            && r.is_frac(a.num * b.den + b.num * a.den, a.den * b.den),
        spec_sub(a, b) matches Some(r) ==> r.wf()
            && r.is_frac(a.num * b.den - b.num * a.den, a.den * b.den),
        spec_mul(a, b) matches Some(r) ==> r.wf()
            && r.is_frac(a.num * b.num, a.den * b.den),
        spec_div(a, b) matches Some(r) ==> r.wf() && b.num != 0
            && r.is_frac(a.num * b.den, a.den * b.num),
{
    assert(0 < a.den * b.den) by (nonlinear_arith)
        requires a.den > 0, b.den > 0;
    lemma_reduce_props(a.num * b.den + b.num * a.den, a.den * b.den);
    lemma_reduce_props(a.num * b.den - b.num * a.den, a.den * b.den);
    lemma_reduce_props(a.num * b.num, a.den * b.den);
    if b.num > 0 {
        assert(0 < a.den * b.num) by (nonlinear_arith)
            requires a.den > 0, b.num > 0;
        lemma_reduce_props(a.num * b.den, a.den * b.num);
    } else if b.num < 0 {
        assert(0 < a.den * (-b.num)) by (nonlinear_arith)
            requires a.den > 0, b.num < 0;
        lemma_reduce_props(-(a.num * b.den), a.den * (-b.num));
        if spec_div(a, b) is Some {
            let r = spec_div(a, b)->Some_0;
            assert(r.is_frac(a.num * b.den, a.den * b.num)) by (nonlinear_arith)
                requires r.num * (a.den * (-b.num)) == (-(a.num * b.den)) * r.den;
        }
    }
}

/// Multiplying a quotient back by its divisor recovers the dividend: the
/// exact core of the perspective-divide round trip.
pub proof fn lemma_div_mul_cancel(x: Rat, z: Rat, u: Rat, s: Rat)
    requires
        x.wf(),
        z.wf(),
        u.wf(),
        s.wf(),
        spec_div(x, z) == Some(u),
        spec_mul(u, z) == Some(s),
    ensures
        s.eqv(x),
{
    lemma_op_frac(x, z);
    lemma_op_frac(u, z);
    assert(s.num * x.den == x.num * s.den) by (nonlinear_arith)
        requires
            u.num * (x.den * z.num) == (x.num * z.den) * u.den,
            s.num * (u.den * z.den) == (u.num * z.num) * s.den,
            x.den > 0,
            z.den > 0,
            u.den > 0,
            s.den > 0,
            z.num != 0;
}

} // verus!
