//! Downscale factors, and the rounding that turns scaled lengths back into
//! whole pixels.

use vstd::prelude::*;

verus! {

/// `a / b` rounded to the nearest whole number, a half rounding up.
///
/// Meant for `a >= 0` and `b > 0`.
pub open spec fn round_div(a: int, b: int) -> int {
    (2 * a + b) / (2 * b)
}

/// `a / b` rounded to the nearest whole number, a half rounding away from
/// zero, for `b > 0` and `a` of either sign.
pub open spec fn round_div_signed(a: int, b: int) -> int {
    if a >= 0 {
        round_div(a, b)
    } else {
        -round_div(-a, b)
    }
}

/// The distance of `v` from zero.
pub open spec fn magnitude(v: int) -> int {
    if v >= 0 {
        v
    } else {
        -v
    }
}

/// `round_div(a, b)` is the one whole number `k` with
/// `k - 1/2 <= a / b < k + 1/2`.
pub proof fn lemma_round_div_is_nearest(a: int, b: int)
    requires
        a >= 0,
        b > 0,
    ensures
        round_div(a, b) >= 0,
        2 * b * round_div(a, b) <= 2 * a + b < 2 * b * round_div(a, b) + 2 * b,
{
    let n = 2 * a + b;
    let d = 2 * b;
    vstd::arithmetic::div_mod::lemma_fundamental_div_mod(n, d);
    vstd::arithmetic::div_mod::lemma_mod_bound(n, d);
    vstd::arithmetic::div_mod::lemma_div_pos_is_pos(n, d);
}

/// Any whole number `k` with `k - 1/2 <= a / b < k + 1/2` is `round_div(a, b)`.
pub proof fn lemma_nearest_is_round_div(a: int, b: int, k: int)
    requires
        b > 0,
        2 * b * k <= 2 * a + b < 2 * b * k + 2 * b,
    ensures
        round_div(a, b) == k,
{
    let n = 2 * a + b;
    let d = 2 * b;
    let r = n - k * d;
    assert(k * d == 2 * b * k) by (nonlinear_arith)
        requires
            d == 2 * b,
    ;
    vstd::arithmetic::div_mod::lemma_fundamental_div_mod_converse(n, d, k, r);
}

/// A downscale factor: the fraction `num / den`, strictly between 0 and 1.
///
/// Frames shrink by the factor itself. Regions found in the shrunken frame
/// grow back by [`ScaleFactor::inverse`], the reciprocal rounded to a whole
/// number.
#[derive(Clone, Copy, Debug, PartialEq, Eq)]
pub struct ScaleFactor {
    numerator: u32,
    denominator: u32,
}

impl ScaleFactor {
    /// The numerator of the fraction.
    pub closed spec fn num(self) -> int {
        self.numerator as int
    }

    /// The denominator of the fraction.
    pub closed spec fn den(self) -> int {
        self.denominator as int
    }

    /// The fraction is positive and below one. This holds of every factor
    /// that a program can get hold of.
    #[verifier::type_invariant]
    pub open spec fn wf(self) -> bool {
        0 < self.num() < self.den() <= u32::MAX
    }

    /// A length of `v` pixels after scaling: `v * num / den`, rounded to the
    /// nearest whole pixel, a half rounding away from zero.
    pub open spec fn scaled(self, v: int) -> int {
        round_div_signed(v * self.num(), self.den())
    }

    /// The whole multiplier that undoes the factor: `den / num`, rounded to
    /// the nearest whole number.
    pub open spec fn inverse(self) -> int {
        round_div(self.den(), self.num())
    }

    /// The factor is the reciprocal of a whole number, so that the inverse
    /// multiplier undoes it without drift.
    pub open spec fn exact(self) -> bool {
        self.inverse() * self.num() == self.den()
    }

    /// The fraction `numerator / denominator`, if it lies strictly between
    /// 0 and 1.
    pub fn new(numerator: u32, denominator: u32) -> (made: Option<ScaleFactor>)
        ensures
            made is Some <==> 0 < numerator < denominator,
            made matches Some(scale) ==> scale.wf() && scale.num() == numerator && scale.den()
                == denominator,
    {
        if 0 < numerator && numerator < denominator {
            Some(ScaleFactor { numerator, denominator })
        } else {
            None
        }
    }

    /// One quarter: frames shrink to a quarter of their width and height.
    pub fn quarter() -> (scale: ScaleFactor)
        ensures
            scale.wf(),
            scale.num() == 1,
            scale.den() == 4,
            scale.inverse() == 4,
            scale.exact(),
    {
        assert((2 * 4 + 1) / (2 * 1) == 4int) by (nonlinear_arith);
        ScaleFactor { numerator: 1, denominator: 4 }
    }

    /// The numerator of the fraction.
    pub fn numerator(&self) -> (n: u32)
        ensures
            n == self.num(),
            self.wf(),
    {
        proof {
            use_type_invariant(self);
        }
        self.numerator
    }

    /// The denominator of the fraction.
    pub fn denominator(&self) -> (d: u32)
        ensures
            d == self.den(),
            self.wf(),
    {
        proof {
            use_type_invariant(self);
        }
        self.denominator
    }

    /// The whole multiplier that maps scaled coordinates back.
    pub fn inverse_multiplier(&self) -> (m: u32)
        ensures
            m == self.inverse(),
            m >= 1,
    {
        proof {
            use_type_invariant(self);
            self.lemma_inverse_bounds();
        }
        let p: u64 = self.numerator as u64;
        let q: u64 = self.denominator as u64;
        let m: u64 = (2 * q + p) / (2 * p);
        m as u32
    }

    /// Whether the inverse multiplier undoes the factor without drift.
    pub fn is_exact(&self) -> (exact: bool)
        ensures
            exact == self.exact(),
    {
        proof {
            use_type_invariant(self);
            self.lemma_inverse_bounds();
        }
        let m: u64 = self.inverse_multiplier() as u64;
        assert(m * self.numerator <= 0xffff_ffff * 0xffff_ffff) by (nonlinear_arith)
            requires
                0 <= m <= 0xffff_ffff,
                0 <= self.numerator <= 0xffff_ffff,
        ;
        m * (self.numerator as u64) == self.denominator as u64
    }

    /// A length of `length` pixels after scaling, in whole pixels.
    pub fn scale_length(&self, length: i32) -> (scaled: i32)
        ensures
            scaled == self.scaled(length as int),
            length >= 0 ==> 0 <= scaled <= length,
            length <= 0 ==> length <= scaled <= 0,
    {
        proof {
            use_type_invariant(self);
        }
        let p: u64 = self.numerator as u64;
        let q: u64 = self.denominator as u64;
        if length >= 0 {
            let a: u64 = length as u64;
            proof {
                self.lemma_scaled_magnitude(a as int);
                assert(2 * a * p == 2 * (a * self.num())) by (nonlinear_arith)
                    requires
                        p == self.num(),
                ;
            }
            let k: u64 = (2 * a * p + q) / (2 * q);
            k as i32
        } else {
            let a: u64 = (-(length as i64)) as u64;
            proof {
                self.lemma_scaled_magnitude(a as int);
                assert(2 * a * p == 2 * (a * self.num())) by (nonlinear_arith)
                    requires
                        p == self.num(),
                ;
                assert(-(length * self.num()) == a * self.num()) by (nonlinear_arith)
                    requires
                        a == -length,
                ;
                assert(length * self.num() < 0) by (nonlinear_arith)
                    requires
                        length < 0,
                        self.num() > 0,
                ;
            }
            let k: u64 = (2 * a * p + q) / (2 * q);
            (-(k as i64)) as i32
        }
    }

    /// The inverse multiplier is at least one and no larger than the
    /// denominator.
    pub proof fn lemma_inverse_bounds(self)
        requires
            self.wf(),
        ensures
            1 <= self.inverse() <= self.den(),
    {
        let p = self.num();
        let q = self.den();
        let m = self.inverse();
        lemma_round_div_is_nearest(q, p);
        // 2 p m <= 2 q + p < 2 p m + 2 p
        assert(m >= 1) by (nonlinear_arith)
            requires
                2 * q + p < 2 * p * m + 2 * p,
                0 < p < q,
        ;
        assert(m <= q) by (nonlinear_arith)
            requires
                2 * p * m <= 2 * q + p,
                0 < p < q,
                m >= 0,
        ;
    }

    /// Scaling a length of `a >= 0` pixels never lengthens it, and the
    /// arithmetic behind it stays within 64 bits for lengths up to `2^31`.
    pub proof fn lemma_scaled_magnitude(self, a: int)
        requires
            self.wf(),
            a >= 0,
        ensures
            0 <= round_div(a * self.num(), self.den()) <= a,
            a <= 0x8000_0000 ==> 2 * a * self.num() + self.den() <= u64::MAX,
            a * self.num() >= 0,
    {
        let p = self.num();
        let q = self.den();
        assert(a * p >= 0) by (nonlinear_arith)
            requires
                a >= 0,
                p > 0,
        ;
        lemma_round_div_is_nearest(a * p, q);
        let k = round_div(a * p, q);
        assert(k <= a) by (nonlinear_arith)
            requires
                2 * q * k <= 2 * (a * p) + q,
                0 < p < q,
                a >= 0,
                k >= 0,
        ;
        if a <= 0x8000_0000 {
            assert(2 * a * p + q <= u64::MAX) by (nonlinear_arith)
                requires
                    0 <= a <= 0x8000_0000,
                    0 < p < q,
                    q <= 0xffff_ffff,
            ;
        }
    }
}

} // verus!
