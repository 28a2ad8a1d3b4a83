//! Exact rational numbers with bounded components.
//!
//! Every quantity of the view-transform logic (zoom, normalized frequency,
//! dilation, the overflow accumulator) is a real number; here it is carried
//! as an exact fraction `num / den` of machine integers.  The mathematical
//! model of a value is [`Ratio`], a ghost pair of unbounded integers, and
//! two values represent the same number exactly when [`rat_eq`] holds.
//!
//! Stored components are kept within [`COMPONENT_BOUND`] so that every
//! product of interest fits comfortably in the machine arithmetic;
//! operations whose exact result would leave that range report it by
//! returning `None` rather than rounding.

use vstd::prelude::*;

verus! {

/// Largest magnitude of a stored numerator and largest stored denominator.
pub const COMPONENT_BOUND: i64 = 0x7fff_ffff;

/// Mathematical model of a rational number: the value `n / d`, with `d > 0`.
pub ghost struct Ratio {
    pub n: int,
    pub d: int,
}

/// A ratio is well formed when its denominator is positive.
pub open spec fn rat_wf(a: Ratio) -> bool {
    a.d > 0
}

/// Both components are small enough to be stored in a [`Rat`].
pub open spec fn rat_bounded(a: Ratio) -> bool {
    &&& -(COMPONENT_BOUND as int) <= a.n <= COMPONENT_BOUND as int
    &&& 0 < a.d <= COMPONENT_BOUND as int
}

/// The two fractions denote the same rational number.
pub open spec fn rat_eq(a: Ratio, b: Ratio) -> bool {
    a.n * b.d == b.n * a.d
}

/// `a <= b` as rational numbers (for positive denominators).
pub open spec fn rat_le(a: Ratio, b: Ratio) -> bool {
    a.n * b.d <= b.n * a.d
}

/// `a < b` as rational numbers (for positive denominators).
pub open spec fn rat_lt(a: Ratio, b: Ratio) -> bool {
    a.n * b.d < b.n * a.d
}

/// The integer `i` as a ratio.
pub open spec fn rat_of_int(i: int) -> Ratio {
    Ratio { n: i, d: 1 }
}

pub open spec fn rat_zero() -> Ratio {
    rat_of_int(0)
}

pub open spec fn rat_one() -> Ratio {
    rat_of_int(1)
}

/// Exact sum; the result is not reduced.
pub open spec fn rat_add(a: Ratio, b: Ratio) -> Ratio {
    Ratio { n: a.n * b.d + b.n * a.d, d: a.d * b.d }
}

/// Exact difference; the result is not reduced.
pub open spec fn rat_sub(a: Ratio, b: Ratio) -> Ratio {
    Ratio { n: a.n * b.d - b.n * a.d, d: a.d * b.d }
}

/// Exact product; the result is not reduced.
pub open spec fn rat_mul(a: Ratio, b: Ratio) -> Ratio {
    Ratio { n: a.n * b.n, d: a.d * b.d }
}

pub open spec fn rat_neg(a: Ratio) -> Ratio {
    Ratio { n: -a.n, d: a.d }
}

pub open spec fn rat_abs(a: Ratio) -> Ratio {
    if a.n >= 0 {
        a
    } else {
        rat_neg(a)
    }
}

/// Reciprocal, keeping the denominator positive.  Meaningful only when
/// `a.n != 0`.
pub open spec fn rat_recip(a: Ratio) -> Ratio {
    if a.n >= 0 {
        Ratio { n: a.d, d: a.n }
    } else {
        Ratio { n: -a.d, d: -a.n }
    }
}

/// Exact quotient `a / b`, meaningful only when `b.n != 0`.
pub open spec fn rat_div(a: Ratio, b: Ratio) -> Ratio {
    rat_mul(a, rat_recip(b))
}

/// An exact rational number with components bounded by [`COMPONENT_BOUND`].
#[derive(Clone, Copy, PartialEq, Eq, Structural, Debug)]
pub struct Rat {
    num: i64,
    den: i64,
}

impl View for Rat {
    type V = Ratio;

    closed spec fn view(&self) -> Ratio {
        Ratio { n: self.num as int, d: self.den as int }
    }
}

impl Rat {
    /// A stored value is well formed when its components are in range; its
    /// denominator is then positive.
    pub open spec fn wf(&self) -> bool {
        rat_bounded(self@)
    }

    /// Builds the fraction `num / den`; `None` exactly when a component is
    /// out of the storable range.
    pub fn new(num: i64, den: i64) -> (r: Option<Rat>)
        ensures
            r is Some <==> rat_bounded(Ratio { n: num as int, d: den as int }),
            r matches Some(q) ==> q@ == (Ratio { n: num as int, d: den as int }) && q.wf(),
    {
        if 0 < den && den <= COMPONENT_BOUND && -COMPONENT_BOUND <= num && num <= COMPONENT_BOUND {
            Some(Rat { num, den })
        } else {
            None
        }
    }

    /// The integer `i` as a rational number.
    pub fn from_int(i: i64) -> (r: Rat)
        requires
            -COMPONENT_BOUND <= i <= COMPONENT_BOUND,
        ensures
            r@ == rat_of_int(i as int),
            r.wf(),
    {
        Rat { num: i, den: 1 }
    }

    pub fn zero() -> (r: Rat)
        ensures
            r@ == rat_zero(),
            r.wf(),
    {
        Rat { num: 0, den: 1 }
    }

    pub fn one() -> (r: Rat)
        ensures
            r@ == rat_one(),
            r.wf(),
    {
        Rat { num: 1, den: 1 }
    }

    pub fn num(&self) -> (n: i64)
        ensures
            n as int == self@.n,
    {
        self.num
    }

    pub fn den(&self) -> (d: i64)
        ensures
            d as int == self@.d,
    {
        self.den
    }

    /// Exact sum; `None` exactly when the exact result has a component out
    /// of the storable range.
    pub fn add(&self, other: &Rat) -> (r: Option<Rat>)
        requires
            self.wf(),
            other.wf(),
        ensures
            r is Some <==> rat_bounded(rat_add(self@, other@)),
            r matches Some(q) ==> q@ == rat_add(self@, other@) && q.wf(),
    {
        proof {
            let b = COMPONENT_BOUND as int;
            lemma_mul_bound(self@.n, other@.d, b, b);
            lemma_mul_bound(other@.n, self@.d, b, b);
            lemma_mul_bound(self@.d, other@.d, b, b);
            lemma_mul_pos(self@.d, other@.d);
        }
        let n: i128 = (self.num as i128) * (other.den as i128)
            + (other.num as i128) * (self.den as i128);
        let d: i128 = (self.den as i128) * (other.den as i128);
        checked(n, d)
    }

    /// Exact difference; `None` exactly when the exact result has a
    /// component out of the storable range.
    pub fn sub(&self, other: &Rat) -> (r: Option<Rat>)
        requires
            self.wf(),
            other.wf(),
        ensures
            r is Some <==> rat_bounded(rat_sub(self@, other@)),
            r matches Some(q) ==> q@ == rat_sub(self@, other@) && q.wf(),
    {
        proof {
            let b = COMPONENT_BOUND as int;
            lemma_mul_bound(self@.n, other@.d, b, b);
            lemma_mul_bound(other@.n, self@.d, b, b);
            lemma_mul_bound(self@.d, other@.d, b, b);
            lemma_mul_pos(self@.d, other@.d);
        }
        let n: i128 = (self.num as i128) * (other.den as i128)
            - (other.num as i128) * (self.den as i128);
        let d: i128 = (self.den as i128) * (other.den as i128);
        checked(n, d)
    }

    /// Exact product; `None` exactly when the exact result has a component
    /// out of the storable range.
    pub fn mul(&self, other: &Rat) -> (r: Option<Rat>)
        requires
            self.wf(),
            other.wf(),
        ensures
            r is Some <==> rat_bounded(rat_mul(self@, other@)),
            r matches Some(q) ==> q@ == rat_mul(self@, other@) && q.wf(),
    {
        proof {
            let b = COMPONENT_BOUND as int;
            lemma_mul_bound(self@.n, other@.n, b, b);
            lemma_mul_bound(self@.d, other@.d, b, b);
            lemma_mul_pos(self@.d, other@.d);
        }
        let n: i128 = (self.num as i128) * (other.num as i128);
        let d: i128 = (self.den as i128) * (other.den as i128);
        checked(n, d)
    }

    /// Exact quotient; `None` when the divisor is zero or the exact result
    /// has a component out of the storable range.
    pub fn div(&self, other: &Rat) -> (r: Option<Rat>)
        requires
            self.wf(),
            other.wf(),
        ensures
            r is Some <==> other@.n != 0 && rat_bounded(rat_div(self@, other@)),
            r matches Some(q) ==> q@ == rat_div(self@, other@) && q.wf(),
    {
        proof {
            let b = COMPONENT_BOUND as int;
            lemma_mul_bound(self@.n, other@.d, b, b);
            lemma_mul_bound(self@.d, other@.n, b, b);
        }
        if other.num > 0 {
            let n: i128 = (self.num as i128) * (other.den as i128);
            let d: i128 = (self.den as i128) * (other.num as i128);
            proof {
                lemma_mul_pos(self@.d, other@.n);
            }
            checked(n, d)
        } else if other.num < 0 {
            proof {
                let b = COMPONENT_BOUND as int;
                lemma_mul_bound(self@.d, -other@.n, b, b);
                lemma_mul_pos(self@.d, -other@.n);
                lemma_mul_neg(self@.n, other@.d);
            }
            let n: i128 = -((self.num as i128) * (other.den as i128));
            let d: i128 = (self.den as i128) * (-(other.num as i128));
            checked(n, d)
        } else {
            None
        }
    }

    /// Exact negation; always representable.
    pub fn neg(&self) -> (r: Rat)
        requires
            self.wf(),
        ensures
            r@ == rat_neg(self@),
            r.wf(),
    {
        Rat { num: -self.num, den: self.den }
    }

    /// Exact absolute value; always representable.
    pub fn abs(&self) -> (r: Rat)
        requires
            self.wf(),
        ensures
            r@ == rat_abs(self@),
            r.wf(),
    {
        if self.num >= 0 {
            *self
        } else {
            Rat { num: -self.num, den: self.den }
        }
    }

    /// Exact order comparison.
    pub fn le(&self, other: &Rat) -> (r: bool)
        requires
            self.wf(),
            other.wf(),
        ensures
            r == rat_le(self@, other@),
    {
        proof {
            let b = COMPONENT_BOUND as int;
            lemma_mul_bound(self@.n, other@.d, b, b);
            lemma_mul_bound(other@.n, self@.d, b, b);
        }
        (self.num as i128) * (other.den as i128) <= (other.num as i128) * (self.den as i128)
    }

    /// Exact strict order comparison.
    pub fn lt(&self, other: &Rat) -> (r: bool)
        requires
            self.wf(),
            other.wf(),
        ensures
            r == rat_lt(self@, other@),
    {
        proof {
            let b = COMPONENT_BOUND as int;
            lemma_mul_bound(self@.n, other@.d, b, b);
            lemma_mul_bound(other@.n, self@.d, b, b);
        }
        (self.num as i128) * (other.den as i128) < (other.num as i128) * (self.den as i128)
    }

    /// Exact equality of the denoted numbers (not of the representations).
    pub fn eq_value(&self, other: &Rat) -> (r: bool)
        requires
            self.wf(),
            other.wf(),
        ensures
            r == rat_eq(self@, other@),
    {
        proof {
            let b = COMPONENT_BOUND as int;
            lemma_mul_bound(self@.n, other@.d, b, b);
            lemma_mul_bound(other@.n, self@.d, b, b);
        }
        (self.num as i128) * (other.den as i128) == (other.num as i128) * (self.den as i128)
    }
}

/// Narrows an exactly computed fraction into a [`Rat`]; `None` exactly when
/// a component is out of the storable range.
pub(crate) fn checked(n: i128, d: i128) -> (r: Option<Rat>)
    requires
        d > 0,
    ensures
        r is Some <==> rat_bounded(Ratio { n: n as int, d: d as int }),
        r matches Some(q) ==> q@ == (Ratio { n: n as int, d: d as int }) && q.wf(),
{
    let b: i128 = COMPONENT_BOUND as i128;
    if -b <= n && n <= b && d <= b {
        Some(Rat { num: n as i64, den: d as i64 })
    } else {
        None
    }
}

/// Bound on a product from bounds on its factors.
pub proof fn lemma_mul_bound(a: int, b: int, ma: int, mb: int)
    by (nonlinear_arith)
    requires
        -ma <= a <= ma,
        -mb <= b <= mb,
        0 <= ma,
        0 <= mb,
    ensures
        -(ma * mb) <= a * b <= ma * mb,
{
}

/// A product of nonnegative integers is nonnegative.
pub proof fn lemma_mul_nonneg(a: int, b: int)
    by (nonlinear_arith)
    requires
        a >= 0,
        b >= 0,
    ensures
        a * b >= 0,
{
}

/// Negation moves through a product.
pub proof fn lemma_mul_neg(a: int, b: int)
    by (nonlinear_arith)
    ensures
        a * -b == -(a * b),
        -a * b == -(a * b),
{
}

/// A product of positive integers is positive.
pub proof fn lemma_mul_pos(a: int, b: int)
    by (nonlinear_arith)
    requires
        a > 0,
        b > 0,
    ensures
        a * b > 0,
{
}

/// Rational equality is transitive (for positive denominators).
pub proof fn lemma_rat_eq_trans(a: Ratio, b: Ratio, c: Ratio)
    by (nonlinear_arith)
    requires
        rat_wf(a),
        rat_wf(b),
        rat_wf(c),
        rat_eq(a, b),
        rat_eq(b, c),
    ensures
        rat_eq(a, c),
{
}

} // verus!
