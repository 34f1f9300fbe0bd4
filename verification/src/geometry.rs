//! Exact fractional geometry.
//!
//! The pipeline never rounds: the fit ratio is the exact quotient of two
//! panel/page dimensions, and every pixel coordinate derived from it is an
//! exact fraction over the same denominator. Contracts compare fractions by
//! cross-multiplication, so no statement depends on division.

use vstd::prelude::*;

verus! {

/// Largest magnitude allowed for a document-unit coordinate or dimension,
/// and for a panel dimension in pixels. Keeping all inputs within this
/// bound lets every product computed by the pipeline fit in an `i64`.
pub const COORD_LIMIT: u32 = 0x4000_0000;

/// A positive ratio of two pixel/document dimensions, kept exact.
#[derive(Clone, Copy, PartialEq, Eq, Structural, Debug)]
pub struct Frac {
    pub num: u32,
    pub den: u32,
}

impl Frac {
    /// Both components positive and small enough that cross products with
    /// bounded coordinates fit in an `i64`.
    pub open spec fn wf(self) -> bool {
        1 <= self.num <= COORD_LIMIT && 1 <= self.den <= COORD_LIMIT
    }
}

/// A signed pixel quantity, exact: the value is `num / den`.
#[derive(Clone, Copy, PartialEq, Eq, Structural, Debug)]
pub struct Px {
    pub num: i64,
    pub den: u32,
}

/// Bound on the product of two bounded dimensions: it fits in a `u64`.
pub proof fn lemma_dim_product_bounds(a: int, b: int)
    by (nonlinear_arith)
    requires
        0 <= a <= 0x4000_0000,
        0 <= b <= 0x4000_0000,
    ensures
        0 <= a * b <= 0x1000_0000_0000_0000,
{
}

/// Bound on the product of any `i64` with a well-formed denominator,
/// comfortably inside the `i128` range.
pub proof fn lemma_px_product_bounds(a: int, b: int)
    by (nonlinear_arith)
    requires
        -0x8000_0000_0000_0000 <= a < 0x8000_0000_0000_0000,
        0 <= b <= 0x4000_0000,
    ensures
        -0x2000_0000_0000_0000_0000_0000 <= a * b <= 0x2000_0000_0000_0000_0000_0000,
{
}

impl Px {
    pub open spec fn wf(self) -> bool {
        1 <= self.den <= COORD_LIMIT
    }

    /// `self <= other` as mathematical fractions.
    pub open spec fn spec_le(self, other: Px) -> bool {
        self.num * other.den <= other.num * self.den
    }

    /// `self` and `other` denote the same mathematical value.
    pub open spec fn spec_eq(self, other: Px) -> bool {
        self.num * other.den == other.num * self.den
    }

    /// Exact comparison of two pixel quantities.
    pub fn le(&self, other: &Px) -> (r: bool)
        requires
            self.wf(),
            other.wf(),
        ensures
            r == self.spec_le(*other),
    {
        proof {
            lemma_px_product_bounds(self.num as int, other.den as int);
            lemma_px_product_bounds(other.num as int, self.den as int);
        }
        (self.num as i128) * (other.den as i128) <= (other.num as i128) * (self.den as i128)
    }

    /// Exact equality test of two pixel quantities.
    pub fn eq_value(&self, other: &Px) -> (r: bool)
        requires
            self.wf(),
            other.wf(),
        ensures
            r == self.spec_eq(*other),
    {
        proof {
            lemma_px_product_bounds(self.num as int, other.den as int);
            lemma_px_product_bounds(other.num as int, self.den as int);
        }
        (self.num as i128) * (other.den as i128) == (other.num as i128) * (self.den as i128)
    }

    /// A quantity is positive exactly when its numerator is.
    pub fn is_positive(&self) -> (r: bool)
        requires
            self.wf(),
        ensures
            r == (self.num > 0),
    {
        self.num > 0
    }
}

} // verus!
