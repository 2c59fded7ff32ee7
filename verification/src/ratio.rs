//! Exact ratios of counts.
use crate::order::Rank;
use vstd::prelude::*;

verus! {

/// A ratio of two counts, kept exact. The denominator is positive in every ratio this library makes.
#[derive(Clone, Copy, Debug, PartialEq, Eq, Structural)]
pub struct Ratio {
    pub numerator: u64,
    pub denominator: u64,
}

/// The ratio of two counts, where it is defined.
pub open spec fn ratio(numerator: int, denominator: int) -> Option<Ratio> {
    if denominator == 0 {
        None
    } else {
        Some(Ratio { numerator: numerator as u64, denominator: denominator as u64 })
    }
}

/// Makes the ratio of two counts, where it is defined.
pub fn make_ratio(numerator: u64, denominator: u64) -> (r: Option<Ratio>)
    ensures
        r == ratio(numerator as int, denominator as int),
{
    if denominator == 0 {
        None
    } else {
        Some(Ratio { numerator, denominator })
    }
}

/// A quotient of two amounts, kept exact and ordered by value. The denominator is positive in every
/// quotient this library makes; one that is not counts as 1.
#[derive(Clone, Copy, Debug, PartialEq, Eq, Structural)]
pub struct Quotient {
    pub numerator: i64,
    pub denominator: i64,
}

impl Quotient {
    /// The denominator that counts.
    pub open spec fn divisor(self) -> int {
        if self.denominator <= 0 {
            1
        } else {
            self.denominator as int
        }
    }

    fn get_divisor(&self) -> (d: i64)
        ensures
            d == self.divisor(),
            d > 0,
    {
        if self.denominator <= 0 {
            1
        } else {
            self.denominator
        }
    }
}

proof fn lemma_quotient_transitive(a: int, b: int, c: int, d: int, e: int, f: int)
    requires
        b > 0,
        d > 0,
        f > 0,
        a * d <= c * b,
        c * f <= e * d,
    ensures
        a * f <= e * b,
{
    assert((a * d) * f <= (c * b) * f) by (nonlinear_arith)
        requires
            a * d <= c * b,
            f > 0,
    ;
    assert((c * f) * b <= (e * d) * b) by (nonlinear_arith)
        requires
            c * f <= e * d,
            b > 0,
    ;
    assert((a * d) * f == (a * f) * d) by (nonlinear_arith);
    assert((c * b) * f == (c * f) * b) by (nonlinear_arith);
    assert((e * d) * b == (e * b) * d) by (nonlinear_arith);
    assert(a * f <= e * b) by (nonlinear_arith)
        requires
            (a * f) * d <= (e * b) * d,
            d > 0,
    ;
}

impl Rank for Quotient {
    open spec fn leq(&self, other: &Self) -> bool {
        self.numerator * other.divisor() <= other.numerator * self.divisor()
    }

    proof fn leq_total(a: &Self, b: &Self) {
    }

    proof fn leq_transitive(a: &Self, b: &Self, c: &Self) {
        lemma_quotient_transitive(
            a.numerator as int,
            a.divisor(),
            b.numerator as int,
            b.divisor(),
            c.numerator as int,
            c.divisor(),
        );
    }

    fn at_most(&self, other: &Self) -> (r: bool) {
        let d: i64 = other.get_divisor();
        let e: i64 = self.get_divisor();
        let m: i64 = self.numerator;
        let n: i64 = other.numerator;
        assert(-0x8000_0000_0000_0000 * 0x7fff_ffff_ffff_ffff <= m * d <= 0x7fff_ffff_ffff_ffff
            * 0x7fff_ffff_ffff_ffff) by (nonlinear_arith)
            requires
                -0x8000_0000_0000_0000 <= m <= 0x7fff_ffff_ffff_ffff,
                0 < d <= 0x7fff_ffff_ffff_ffff,
        ;
        assert(-0x8000_0000_0000_0000 * 0x7fff_ffff_ffff_ffff <= n * e <= 0x7fff_ffff_ffff_ffff
            * 0x7fff_ffff_ffff_ffff) by (nonlinear_arith)
            requires
                -0x8000_0000_0000_0000 <= n <= 0x7fff_ffff_ffff_ffff,
                0 < e <= 0x7fff_ffff_ffff_ffff,
        ;
        (m as i128) * (d as i128) <= (n as i128) * (e as i128)
    }
}

} // verus!
