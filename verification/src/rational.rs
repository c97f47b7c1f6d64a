//! Exact rational arithmetic for token amounts.
//!
//! Token quantities differ by many decimal places between assets, and profit
//! comparisons must never drift, so amounts are kept as exact fractions of
//! machine integers. Every operation either returns the mathematically exact
//! result or reports that it does not fit; nothing is ever rounded.

use vstd::prelude::*;

verus! {

/// Any product of an `i64` with a denominator in `1..=i64::MAX` stays far
/// inside the `i128` range, so two of them can still be added or subtracted.
proof fn lemma_cross_product_bound(x: int, y: int)
    requires
        -0x8000_0000_0000_0000 <= x <= 0x7fff_ffff_ffff_ffff,
        0 <= y <= 0x7fff_ffff_ffff_ffff,
    ensures
        -0x8000_0000_0000_0000 * 0x7fff_ffff_ffff_ffff <= x * y,
        x * y <= 0x8000_0000_0000_0000 * 0x7fff_ffff_ffff_ffff,
{
    assert(-0x8000_0000_0000_0000 * 0x7fff_ffff_ffff_ffff <= x * y <= 0x8000_0000_0000_0000
        * 0x7fff_ffff_ffff_ffff) by (nonlinear_arith)
        requires
            -0x8000_0000_0000_0000 <= x <= 0x7fff_ffff_ffff_ffff,
            0 <= y <= 0x7fff_ffff_ffff_ffff,
    ;
}

/// The product of two `i64` values fits `i128`.
proof fn lemma_signed_product_bound(x: int, y: int)
    requires
        -0x8000_0000_0000_0000 <= x <= 0x7fff_ffff_ffff_ffff,
        -0x8000_0000_0000_0000 <= y <= 0x7fff_ffff_ffff_ffff,
    ensures
        -0x8000_0000_0000_0000 * 0x8000_0000_0000_0000 <= x * y,
        x * y <= 0x8000_0000_0000_0000 * 0x8000_0000_0000_0000,
{
    assert(-0x8000_0000_0000_0000 * 0x8000_0000_0000_0000 <= x * y <= 0x8000_0000_0000_0000
        * 0x8000_0000_0000_0000) by (nonlinear_arith)
        requires
            -0x8000_0000_0000_0000 <= x <= 0x7fff_ffff_ffff_ffff,
            -0x8000_0000_0000_0000 <= y <= 0x7fff_ffff_ffff_ffff,
    ;
}

/// The product of two well-formed denominators is positive and fits `i128`.
proof fn lemma_den_product_bound(y1: int, y2: int)
    requires
        1 <= y1 <= 0x7fff_ffff_ffff_ffff,
        1 <= y2 <= 0x7fff_ffff_ffff_ffff,
    ensures
        1 <= y1 * y2,
        y1 * y2 <= 0x7fff_ffff_ffff_ffff * 0x7fff_ffff_ffff_ffff,
{
    assert(1 <= y1 * y2 <= 0x7fff_ffff_ffff_ffff * 0x7fff_ffff_ffff_ffff) by (nonlinear_arith)
        requires
            1 <= y1 <= 0x7fff_ffff_ffff_ffff,
            1 <= y2 <= 0x7fff_ffff_ffff_ffff,
    ;
}

/// An exact fraction `num / den`.
///
/// Well-formed values keep `1 <= den <= i64::MAX`, which makes every
/// cross-product taken below fit in `i128` with room to spare.
#[derive(Clone, Copy, PartialEq, Eq, Structural, Debug)]
pub struct Rat {
    pub num: i64,
    pub den: u64,
}

impl Rat {
    /// The numerator as a mathematical integer.
    pub open spec fn n(self) -> int {
        self.num as int
    }

    /// The denominator as a mathematical integer.
    pub open spec fn d(self) -> int {
        self.den as int
    }

    /// Well-formedness: positive denominator small enough that all
    /// cross-products below stay inside `i128`.
    pub open spec fn wf(self) -> bool {
        1 <= self.den <= i64::MAX as u64
    }

    /// Value equality of two fractions: `a/b == c/d  <==>  a*d == c*b`.
    pub open spec fn same_value(self, other: Rat) -> bool {
        self.n() * other.d() == other.n() * self.d()
    }

    /// Value ordering: `a/b <= c/d  <==>  a*d <= c*b` (denominators positive).
    pub open spec fn le_value(self, other: Rat) -> bool {
        self.n() * other.d() <= other.n() * self.d()
    }

    /// Value ordering, strict.
    pub open spec fn lt_value(self, other: Rat) -> bool {
        self.n() * other.d() < other.n() * self.d()
    }

    /// The fraction holds the integer `i`.
    pub open spec fn is_int(self, i: int) -> bool {
        self.n() == i * self.d()
    }

    /// The fraction holds exactly the sum of `a` and `b`.
    pub open spec fn is_sum(self, a: Rat, b: Rat) -> bool {
        self.n() == a.n() * b.d() + b.n() * a.d() && self.d() == a.d() * b.d()
    }

    /// The fraction holds exactly the difference `a - b`.
    pub open spec fn is_diff(self, a: Rat, b: Rat) -> bool {
        self.n() == a.n() * b.d() - b.n() * a.d() && self.d() == a.d() * b.d()
    }

    /// The fraction holds exactly the product of `a` and `b`.
    pub open spec fn is_prod(self, a: Rat, b: Rat) -> bool {
        self.n() == a.n() * b.n() && self.d() == a.d() * b.d()
    }

    /// Builds a fraction, rejecting denominators outside the well-formed range.
    pub fn new(num: i64, den: u64) -> (r: Option<Rat>)
        ensures
            match r {
                Some(v) => v.wf() && v.num == num && v.den == den,
                None => !(1 <= den <= i64::MAX as u64),
            },
    {
        if 1 <= den && den <= i64::MAX as u64 {
            Some(Rat { num, den })
        } else {
            None
        }
    }

    /// The fraction holding the integer `i`.
    pub fn from_int(i: i64) -> (r: Rat)
        ensures
            r.wf(),
            r.is_int(i as int),
            r.num == i,
            r.den == 1,
    {
        let r = Rat { num: i, den: 1 };
        proof {
            assert(r.n() == (i as int) * r.d()) by (nonlinear_arith)
                requires
                    r.num == i,
                    r.den == 1,
            ;
        }
        r
    }

    /// Exact zero.
    pub fn zero() -> (r: Rat)
        ensures
            r.wf(),
            r.is_int(0),
            r.num == 0,
            r.den == 1,
    {
        Rat { num: 0, den: 1 }
    }

    /// Checks well-formedness of the denominator.
    pub fn is_wf(&self) -> (r: bool)
        ensures
            r == self.wf(),
    {
        1 <= self.den && self.den <= i64::MAX as u64
    }

    /// The value is strictly positive.
    pub fn is_pos(&self) -> (r: bool)
        requires
            self.wf(),
        ensures
            r == (self.n() > 0),
    {
        self.num > 0
    }

    /// The value is strictly negative.
    pub fn is_neg(&self) -> (r: bool)
        requires
            self.wf(),
        ensures
            r == (self.n() < 0),
    {
        self.num < 0
    }

    /// Exact value comparison `self <= other`.
    pub fn le(&self, other: &Rat) -> (r: bool)
        requires
            self.wf(),
            other.wf(),
        ensures
            r == self.le_value(*other),
    {
        proof {
            lemma_cross_product_bound(self.num as int, other.den as int);
            lemma_cross_product_bound(other.num as int, self.den as int);
        }
        let left: i128 = (self.num as i128) * (other.den as i128);
        let right: i128 = (other.num as i128) * (self.den as i128);
        left <= right
    }

    /// Exact value comparison `self < other`.
    pub fn lt(&self, other: &Rat) -> (r: bool)
        requires
            self.wf(),
            other.wf(),
        ensures
            r == self.lt_value(*other),
    {
        proof {
            lemma_cross_product_bound(self.num as int, other.den as int);
            lemma_cross_product_bound(other.num as int, self.den as int);
        }
        let left: i128 = (self.num as i128) * (other.den as i128);
        let right: i128 = (other.num as i128) * (self.den as i128);
        left < right
    }

    /// Exact value equality (`1/2` equals `2/4`).
    pub fn eq_value(&self, other: &Rat) -> (r: bool)
        requires
            self.wf(),
            other.wf(),
        ensures
            r == self.same_value(*other),
    {
        proof {
            lemma_cross_product_bound(self.num as int, other.den as int);
            lemma_cross_product_bound(other.num as int, self.den as int);
        }
        let left: i128 = (self.num as i128) * (other.den as i128);
        let right: i128 = (other.num as i128) * (self.den as i128);
        left == right
    }

    /// Exact sum. `None` exactly when the exact result does not fit the
    /// machine representation.
    pub fn checked_add(&self, other: &Rat) -> (r: Option<Rat>)
        requires
            self.wf(),
            other.wf(),
        ensures
            match r {
                Some(v) => v.wf() && v.is_sum(*self, *other),
                None => !sum_fits(*self, *other),
            },
            sum_fits(*self, *other) ==> r is Some,
            r == spec_add(*self, *other),
    {
        proof {
            lemma_cross_product_bound(self.num as int, other.den as int);
            lemma_cross_product_bound(other.num as int, self.den as int);
            lemma_den_product_bound(self.den as int, other.den as int);
        }
        let n: i128 = (self.num as i128) * (other.den as i128)
            + (other.num as i128) * (self.den as i128);
        let d: i128 = (self.den as i128) * (other.den as i128);
        if i64::MIN as i128 <= n && n <= i64::MAX as i128 && d <= i64::MAX as i128 {
            Some(Rat { num: n as i64, den: d as u64 })
        } else {
            None
        }
    }

    /// Exact difference. `None` exactly when the exact result does not fit.
    pub fn checked_sub(&self, other: &Rat) -> (r: Option<Rat>)
        requires
            self.wf(),
            other.wf(),
        ensures
            match r {
                Some(v) => v.wf() && v.is_diff(*self, *other),
                None => !diff_fits(*self, *other),
            },
            diff_fits(*self, *other) ==> r is Some,
            r == spec_sub(*self, *other),
    {
        proof {
            lemma_cross_product_bound(self.num as int, other.den as int);
            lemma_cross_product_bound(other.num as int, self.den as int);
            lemma_den_product_bound(self.den as int, other.den as int);
        }
        let n: i128 = (self.num as i128) * (other.den as i128)
            - (other.num as i128) * (self.den as i128);
        let d: i128 = (self.den as i128) * (other.den as i128);
        if i64::MIN as i128 <= n && n <= i64::MAX as i128 && d <= i64::MAX as i128 {
            Some(Rat { num: n as i64, den: d as u64 })
        } else {
            None
        }
    }

    /// Exact product. `None` exactly when the exact result does not fit.
    pub fn checked_mul(&self, other: &Rat) -> (r: Option<Rat>)
        requires
            self.wf(),
            other.wf(),
        ensures
            match r {
                Some(v) => v.wf() && v.is_prod(*self, *other),
                None => !prod_fits(*self, *other),
            },
            prod_fits(*self, *other) ==> r is Some,
            r == spec_mul(*self, *other),
    {
        proof {
            lemma_signed_product_bound(self.num as int, other.num as int);
            lemma_den_product_bound(self.den as int, other.den as int);
        }
        let n: i128 = (self.num as i128) * (other.num as i128);
        let d: i128 = (self.den as i128) * (other.den as i128);
        if i64::MIN as i128 <= n && n <= i64::MAX as i128 && d <= i64::MAX as i128 {
            Some(Rat { num: n as i64, den: d as u64 })
        } else {
            None
        }
    }
}

/// The exact sum of `a` and `b` fits the machine representation.
pub open spec fn sum_fits(a: Rat, b: Rat) -> bool {
    &&& i64::MIN <= a.n() * b.d() + b.n() * a.d() <= i64::MAX
    &&& a.d() * b.d() <= i64::MAX
}

/// The exact difference of `a` and `b` fits the machine representation.
pub open spec fn diff_fits(a: Rat, b: Rat) -> bool {
    &&& i64::MIN <= a.n() * b.d() - b.n() * a.d() <= i64::MAX
    &&& a.d() * b.d() <= i64::MAX
}

/// The exact product of `a` and `b` fits the machine representation.
pub open spec fn prod_fits(a: Rat, b: Rat) -> bool {
    &&& i64::MIN <= a.n() * b.n() <= i64::MAX
    &&& a.d() * b.d() <= i64::MAX
}


/// The exact sum as a machine value, where it fits.
pub open spec fn spec_add(a: Rat, b: Rat) -> Option<Rat> {
    if sum_fits(a, b) {
        Some(
            Rat {
                num: (a.n() * b.d() + b.n() * a.d()) as i64,
                den: (a.d() * b.d()) as u64,
            },
        )
    } else {
        None
    }
}

/// The exact difference as a machine value, where it fits.
pub open spec fn spec_sub(a: Rat, b: Rat) -> Option<Rat> {
    if diff_fits(a, b) {
        Some(
            Rat {
                num: (a.n() * b.d() - b.n() * a.d()) as i64,
                den: (a.d() * b.d()) as u64,
            },
        )
    } else {
        None
    }
}

/// The exact product as a machine value, where it fits.
pub open spec fn spec_mul(a: Rat, b: Rat) -> Option<Rat> {
    if prod_fits(a, b) {
        Some(Rat { num: (a.n() * b.n()) as i64, den: (a.d() * b.d()) as u64 })
    } else {
        None
    }
}

} // verus!

