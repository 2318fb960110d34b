//! What is left of a coordinate after it has been scaled down to the shrunken
//! frame and mapped back by the inverse multiplier.
//!
//! Scaling down rounds to whole pixels of the shrunken frame, and one such
//! pixel covers `inverse` pixels of the original. Mapping back therefore lands
//! on a multiple of the inverse multiplier: the nearest one where the factor
//! is the exact reciprocal of the multiplier, and one that drifts further away
//! as the coordinate grows where it is not. A coordinate comes back within
//! one pixel of itself only if it lies that close to the multiple it lands
//! on. With a factor of one quarter, 41 comes back as 40, and 2 as 4.

use vstd::prelude::*;

use crate::region::Region;
use crate::scale::{lemma_nearest_is_round_div, lemma_round_div_is_nearest, magnitude, round_div,
    round_div_signed, ScaleFactor};

verus! {

/// How far the nearest multiple of `m` lies from `a`, with its sign: the
/// multiple below `a` where that is nearer, the one above otherwise.
pub open spec fn offset_to_grid(a: int, m: int) -> int {
    if 2 * (a % m) < m {
        -(a % m)
    } else {
        m - a % m
    }
}

/// `v` lies within one pixel of a multiple of `m`.
pub open spec fn near_grid(v: int, m: int) -> bool {
    magnitude(v) % m <= 1 || magnitude(v) % m >= m - 1
}

impl ScaleFactor {
    /// A coordinate after it was scaled down and mapped back.
    pub open spec fn round_trip(self, v: int) -> int {
        self.inverse() * self.scaled(v)
    }

    /// How far a length of `a` pixels has drifted once it is scaled by the
    /// factor and then by the inverse multiplier, without any rounding, as a
    /// multiple of `1 / (2 * den)` pixels. Zero on an exact factor.
    pub open spec fn drift(self, a: int) -> int {
        2 * a * (self.inverse() * self.num() - self.den())
    }

    /// A length of `a` pixels comes back as `a + d`: that is a multiple of
    /// the inverse multiplier, and of all multiples it is the one that the
    /// drifted length rounds to.
    pub open spec fn comes_back_at(self, a: int, d: int) -> bool {
        &&& (a + d) % self.inverse() == 0
        &&& -(self.den() * self.inverse()) <= self.drift(a) - 2 * self.den() * d < self.den()
            * self.inverse()
    }

    /// The multiple of the inverse multiplier that `v` comes back as lies
    /// within one pixel of `v`.
    pub open spec fn recovers(self, v: int) -> bool {
        ||| self.comes_back_at(magnitude(v), -1)
        ||| self.comes_back_at(magnitude(v), 0)
        ||| self.comes_back_at(magnitude(v), 1)
    }
}

impl Region {
    /// The region after it was scaled down and mapped back. Says what it
    /// means only where the result is made of values of `i32`.
    pub open spec fn round_trip(self, scale: ScaleFactor) -> Region {
        self.in_preprocessed_space(scale).in_original_space(scale.inverse())
    }

    /// Every field lies within one pixel of a multiple of `m`.
    pub open spec fn near_grid(self, m: int) -> bool {
        &&& near_grid(self.x as int, m)
        &&& near_grid(self.y as int, m)
        &&& near_grid(self.width as int, m)
        &&& near_grid(self.height as int, m)
    }

    /// Every field comes back within one pixel of itself.
    pub open spec fn recovered_by(self, scale: ScaleFactor) -> bool {
        &&& scale.recovers(self.x as int)
        &&& scale.recovers(self.y as int)
        &&& scale.recovers(self.width as int)
        &&& scale.recovers(self.height as int)
    }
}

/// The nearest multiple of `m` to `a` differs from `a` by `offset_to_grid`.
pub proof fn lemma_nearest_multiple(a: int, m: int)
    requires
        a >= 0,
        m >= 1,
    ensures
        m * round_div(a, m) - a == offset_to_grid(a, m),
        -m < 2 * offset_to_grid(a, m) <= m,
{
    let j = a / m;
    let r = a % m;
    vstd::arithmetic::div_mod::lemma_fundamental_div_mod(a, m);
    vstd::arithmetic::div_mod::lemma_mod_bound(a, m);
    assert(a == m * j + r);
    if 2 * r < m {
        assert(2 * m * j <= 2 * a + m < 2 * m * j + 2 * m) by (nonlinear_arith)
            requires
                a == m * j + r,
                0 <= r,
                2 * r < m,
        ;
        lemma_nearest_is_round_div(a, m, j);
    } else {
        assert(2 * m * (j + 1) <= 2 * a + m < 2 * m * (j + 1) + 2 * m) by (nonlinear_arith)
            requires
                a == m * j + r,
                r < m,
                2 * r >= m,
        ;
        lemma_nearest_is_round_div(a, m, j + 1);
        assert(m * (j + 1) == m * j + m) by (nonlinear_arith);
    }
}

/// Scaling a coordinate of either sign mirrors scaling its magnitude.
pub proof fn lemma_scaled_is_odd(scale: ScaleFactor, v: int)
    requires
        scale.wf(),
    ensures
        v >= 0 ==> scale.scaled(v) == round_div(v * scale.num(), scale.den()),
        v < 0 ==> scale.scaled(v) == -round_div((-v) * scale.num(), scale.den()),
        scale.scaled(v) == if v >= 0 {
            scale.scaled(magnitude(v))
        } else {
            -scale.scaled(magnitude(v))
        },
        magnitude(scale.round_trip(v) - v) == magnitude(scale.round_trip(magnitude(v)) - magnitude(v)),
{
    let p = scale.num();
    let m = scale.inverse();
    if v >= 0 {
        assert(v * p >= 0) by (nonlinear_arith)
            requires
                v >= 0,
                p > 0,
        ;
    } else {
        assert(v * p < 0) by (nonlinear_arith)
            requires
                v < 0,
                p > 0,
        ;
        assert(-(v * p) == (-v) * p) by (nonlinear_arith);
        assert((-v) * p >= 0) by (nonlinear_arith)
            requires
                v < 0,
                p > 0,
        ;
        let k = scale.scaled(-v);
        assert(scale.scaled(v) == -k);
        assert(m * (-k) == -(m * k)) by (nonlinear_arith);
    }
}

/// An exact factor is the reciprocal of its inverse multiplier: scaling by it
/// divides by the multiplier and rounds.
pub proof fn lemma_exact_factor_divides(scale: ScaleFactor, v: int)
    requires
        scale.wf(),
        scale.exact(),
    ensures
        scale.scaled(v) == round_div_signed(v, scale.inverse()),
{
    let p = scale.num();
    let q = scale.den();
    let m = scale.inverse();
    let a = magnitude(v);
    scale.lemma_inverse_bounds();
    lemma_scaled_is_odd(scale, v);
    scale.lemma_scaled_magnitude(a);
    lemma_round_div_is_nearest(a * p, q);
    let k = round_div(a * p, q);
    assert(2 * m * k <= 2 * a + m < 2 * m * k + 2 * m) by (nonlinear_arith)
        requires
            2 * q * k <= 2 * (a * p) + q < 2 * q * k + 2 * q,
            q == m * p,
            p > 0,
    ;
    lemma_nearest_is_round_div(a, m, k);
}

/// On an exact factor the round trip lands on the multiple of the inverse
/// multiplier nearest to the coordinate: it misses by at most half the
/// multiplier, and scaling the result down again gives the same pixel of the
/// shrunken frame.
pub proof fn lemma_round_trip_snaps_to_grid(scale: ScaleFactor, v: int)
    requires
        scale.wf(),
        scale.exact(),
    ensures
        magnitude(scale.round_trip(v) - v) == magnitude(offset_to_grid(magnitude(v), scale.inverse())),
        2 * magnitude(scale.round_trip(v) - v) <= scale.inverse(),
        scale.scaled(scale.round_trip(v)) == scale.scaled(v),
{
    let m = scale.inverse();
    let a = magnitude(v);
    scale.lemma_inverse_bounds();
    lemma_scaled_is_odd(scale, v);
    lemma_exact_factor_divides(scale, a);
    lemma_nearest_multiple(a, m);
    let k = round_div(a, m);
    assert(scale.round_trip(a) - a == offset_to_grid(a, m));
    // scaling the multiple `m * k` down gives `k` again
    assert(k >= 0) by {
        lemma_round_div_is_nearest(a, m);
    }
    assert(m * k >= 0) by (nonlinear_arith)
        requires
            m >= 1,
            k >= 0,
    ;
    assert(2 * m * k <= 2 * (m * k) + m < 2 * m * k + 2 * m) by (nonlinear_arith)
        requires
            m >= 1,
    ;
    lemma_nearest_is_round_div(m * k, m, k);
    lemma_exact_factor_divides(scale, m * k);
    assert(scale.scaled(m * k) == k);
    if v >= 0 {
        assert(scale.scaled(v) == k);
        assert(scale.round_trip(v) == m * k);
    } else {
        assert(scale.scaled(v) == -k);
        assert(m * (-k) == -(m * k)) by (nonlinear_arith);
        assert(scale.round_trip(v) == -(m * k));
        lemma_exact_factor_divides(scale, -(m * k));
        if m * k == 0 {
            assert(k == 0) by (nonlinear_arith)
                requires
                    m * k == 0,
                    m >= 1,
            ;
        }
        assert(scale.scaled(-(m * k)) == -k);
    }
}

/// A scaled coordinate is no further from zero than the coordinate itself.
pub proof fn lemma_scaled_fits(scale: ScaleFactor, v: int)
    requires
        scale.wf(),
    ensures
        magnitude(scale.scaled(v)) <= magnitude(v),
        v >= 0 ==> scale.scaled(v) >= 0,
        v <= 0 ==> scale.scaled(v) <= 0,
{
    lemma_scaled_is_odd(scale, v);
    scale.lemma_scaled_magnitude(magnitude(v));
}

/// On every factor, a length of `a` pixels comes back as `a + d` just where
/// `a + d` is a multiple of the inverse multiplier and the drifted length
/// rounds to it.
pub proof fn lemma_round_trip_offset(scale: ScaleFactor, a: int, d: int)
    requires
        scale.wf(),
        a >= 0,
    ensures
        scale.round_trip(a) - a == d <==> scale.comes_back_at(a, d),
{
    let p = scale.num();
    let q = scale.den();
    let m = scale.inverse();
    scale.lemma_inverse_bounds();
    lemma_scaled_is_odd(scale, a);
    scale.lemma_scaled_magnitude(a);
    lemma_round_div_is_nearest(a * p, q);
    let k = round_div(a * p, q);
    assert(scale.round_trip(a) == m * k);
    assert(scale.drift(a) == 2 * (a * p) * m - 2 * q * a) by (nonlinear_arith)
        requires
            scale.drift(a) == 2 * a * (m * p - q),
    ;
    if m * k - a == d {
        assert((a + d) % m == 0) by {
            assert(a + d == k * m + 0) by (nonlinear_arith)
                requires
                    m * k - a == d,
            ;
            vstd::arithmetic::div_mod::lemma_fundamental_div_mod_converse(a + d, m, k, 0);
        }
        assert(-(q * m) <= scale.drift(a) - 2 * q * d < q * m) by (nonlinear_arith)
            requires
                2 * q * k <= 2 * (a * p) + q < 2 * q * k + 2 * q,
                m * k - a == d,
                m >= 1,
                scale.drift(a) == 2 * (a * p) * m - 2 * q * a,
        ;
    }
    if scale.comes_back_at(a, d) {
        let j = (a + d) / m;
        vstd::arithmetic::div_mod::lemma_fundamental_div_mod(a + d, m);
        assert(a + d == m * j);
        assert(2 * q * j <= 2 * (a * p) + q < 2 * q * j + 2 * q) by (nonlinear_arith)
            requires
                -(q * m) <= scale.drift(a) - 2 * q * d < q * m,
                scale.drift(a) == 2 * (a * p) * m - 2 * q * a,
                a + d == m * j,
                m >= 1,
                q > 0,
        ;
        lemma_nearest_is_round_div(a * p, q, j);
        assert(k == j);
    }
}

/// On every factor, the round trip misses a coordinate by at most half the
/// inverse multiplier plus the drift, which grows with the coordinate:
/// `|back - v| <= inverse / 2 + |v| * |inverse * num - den| / den`.
pub proof fn lemma_round_trip_error_bound(scale: ScaleFactor, v: int)
    requires
        scale.wf(),
    ensures
        2 * scale.den() * magnitude(scale.round_trip(v) - v) <= scale.den() * scale.inverse()
            + magnitude(scale.drift(magnitude(v))),
{
    let q = scale.den();
    let a = magnitude(v);
    let d = scale.round_trip(a) - a;
    lemma_scaled_is_odd(scale, v);
    lemma_round_trip_offset(scale, a, d);
    assert(magnitude(scale.round_trip(v) - v) == magnitude(d));
    if d < 0 {
        assert(2 * q * magnitude(d) == -(2 * q * d)) by (nonlinear_arith)
            requires
                magnitude(d) == -d,
        ;
    }
}

/// A coordinate comes back within one pixel of itself just where it lies
/// within one pixel of the multiple of the inverse multiplier that it comes
/// back as: that, and nothing less, is asked of the coordinates below.
pub proof fn lemma_within_one_pixel_where_recovered(scale: ScaleFactor, v: int)
    requires
        scale.wf(),
    ensures
        -1 <= scale.round_trip(v) - v <= 1 <==> scale.recovers(v),
{
    let a = magnitude(v);
    let m = scale.inverse();
    lemma_scaled_is_odd(scale, v);
    lemma_round_trip_offset(scale, a, -1);
    lemma_round_trip_offset(scale, a, 0);
    lemma_round_trip_offset(scale, a, 1);
    if v < 0 {
        let k = scale.scaled(a);
        assert(scale.round_trip(v) == -(m * k)) by (nonlinear_arith)
            requires
                scale.round_trip(v) == m * (-k),
        ;
        assert(scale.round_trip(v) - v == -(scale.round_trip(a) - a));
    }
}

/// On an exact factor, the coordinates that come back within one pixel of
/// themselves are those that lie within one pixel of a multiple of the
/// inverse multiplier. With a multiplier of up to three that is every
/// coordinate.
pub proof fn lemma_exact_factor_recovers_near_grid(scale: ScaleFactor, v: int)
    requires
        scale.wf(),
        scale.exact(),
    ensures
        scale.recovers(v) <==> near_grid(v, scale.inverse()),
        scale.inverse() <= 3 ==> scale.recovers(v),
{
    scale.lemma_inverse_bounds();
    lemma_within_one_pixel_where_recovered(scale, v);
    lemma_round_trip_snaps_to_grid(scale, v);
    vstd::arithmetic::div_mod::lemma_mod_bound(magnitude(v), scale.inverse());
}

/// Scaling a region down and mapping it back by the inverse multiplier gives
/// the region again, within one pixel in each of its four fields, where each
/// field lies within one pixel of the multiple of the multiplier that it
/// comes back as, and the result is made of values of `i32`.
pub proof fn lemma_region_round_trip_within_one_pixel(scale: ScaleFactor, region: Region)
    requires
        scale.wf(),
        region.recovered_by(scale),
        region.in_preprocessed_space(scale).fits_scaled_by(scale.inverse()),
    ensures
        -1 <= region.round_trip(scale).x - region.x <= 1,
        -1 <= region.round_trip(scale).y - region.y <= 1,
        -1 <= region.round_trip(scale).width - region.width <= 1,
        -1 <= region.round_trip(scale).height - region.height <= 1,
{
    lemma_region_round_trip_is_fieldwise(scale, region);
    lemma_within_one_pixel_where_recovered(scale, region.x as int);
    lemma_within_one_pixel_where_recovered(scale, region.y as int);
    lemma_within_one_pixel_where_recovered(scale, region.width as int);
    lemma_within_one_pixel_where_recovered(scale, region.height as int);
}

/// On an exact factor, a region whose fields all lie within one pixel of a
/// multiple of the inverse multiplier comes back within one pixel in each of
/// its four fields, where the result is made of values of `i32`.
pub proof fn lemma_region_round_trip_on_exact_factor(scale: ScaleFactor, region: Region)
    requires
        scale.wf(),
        scale.exact(),
        region.near_grid(scale.inverse()),
        region.in_preprocessed_space(scale).fits_scaled_by(scale.inverse()),
    ensures
        -1 <= region.round_trip(scale).x - region.x <= 1,
        -1 <= region.round_trip(scale).y - region.y <= 1,
        -1 <= region.round_trip(scale).width - region.width <= 1,
        -1 <= region.round_trip(scale).height - region.height <= 1,
{
    lemma_exact_factor_recovers_near_grid(scale, region.x as int);
    lemma_exact_factor_recovers_near_grid(scale, region.y as int);
    lemma_exact_factor_recovers_near_grid(scale, region.width as int);
    lemma_exact_factor_recovers_near_grid(scale, region.height as int);
    lemma_region_round_trip_within_one_pixel(scale, region);
}

/// A region with a field that does not lie within one pixel of the multiple
/// it comes back as does not come back within one pixel in that field.
pub proof fn lemma_region_round_trip_beyond_one_pixel(scale: ScaleFactor, region: Region)
    requires
        scale.wf(),
        !region.recovered_by(scale),
        region.in_preprocessed_space(scale).fits_scaled_by(scale.inverse()),
    ensures
        ({
            ||| magnitude(region.round_trip(scale).x - region.x) >= 2
            ||| magnitude(region.round_trip(scale).y - region.y) >= 2
            ||| magnitude(region.round_trip(scale).width - region.width) >= 2
            ||| magnitude(region.round_trip(scale).height - region.height) >= 2
        }),
{
    lemma_region_round_trip_is_fieldwise(scale, region);
    lemma_within_one_pixel_where_recovered(scale, region.x as int);
    lemma_within_one_pixel_where_recovered(scale, region.y as int);
    lemma_within_one_pixel_where_recovered(scale, region.width as int);
    lemma_within_one_pixel_where_recovered(scale, region.height as int);
}

/// The round trip of a region is the round trip of each of its fields,
/// where the result is made of values of `i32`.
pub proof fn lemma_region_round_trip_is_fieldwise(scale: ScaleFactor, region: Region)
    requires
        scale.wf(),
        region.in_preprocessed_space(scale).fits_scaled_by(scale.inverse()),
    ensures
        region.round_trip(scale).x == scale.round_trip(region.x as int),
        region.round_trip(scale).y == scale.round_trip(region.y as int),
        region.round_trip(scale).width == scale.round_trip(region.width as int),
        region.round_trip(scale).height == scale.round_trip(region.height as int),
{
    lemma_scaled_fits(scale, region.x as int);
    lemma_scaled_fits(scale, region.y as int);
    lemma_scaled_fits(scale, region.width as int);
    lemma_scaled_fits(scale, region.height as int);
    let small = region.in_preprocessed_space(scale);
    let m = scale.inverse();
    assert(m * small.x == small.x * m) by (nonlinear_arith);
    assert(m * small.y == small.y * m) by (nonlinear_arith);
    assert(m * small.width == small.width * m) by (nonlinear_arith);
    assert(m * small.height == small.height * m) by (nonlinear_arith);
}

} // verus!
