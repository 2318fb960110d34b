//! Axis-aligned rectangles in pixel coordinates, and the mapping between the
//! coordinate space of a shrunken frame and that of the frame it came from.

use vstd::prelude::*;

use crate::scale::ScaleFactor;

verus! {

/// An axis-aligned rectangle: an origin and an extent, in pixels of one
/// coordinate space.
#[derive(Clone, Copy, Debug, PartialEq, Eq, Structural)]
pub struct Region {
    pub x: i32,
    pub y: i32,
    pub width: i32,
    pub height: i32,
}

/// `n` lies in the span `from..until`.
pub open spec fn in_span(n: int, from: int, until: int) -> bool {
    from <= n < until
}

/// The spans `from..until` and `other_from..other_until` share a whole
/// number.
pub open spec fn spans_meet(from: int, until: int, other_from: int, other_until: int) -> bool {
    from < until && other_from < other_until && from < other_until && other_from < until
}

/// Whether `v` is a value of `i32`.
pub open spec fn fits_i32(v: int) -> bool {
    i32::MIN <= v <= i32::MAX
}

impl Region {
    /// The extent is never negative; the origin may lie anywhere.
    pub open spec fn wf(self) -> bool {
        self.width >= 0 && self.height >= 0
    }

    /// All four fields are zero.
    pub open spec fn is_zero(self) -> bool {
        self.x == 0 && self.y == 0 && self.width == 0 && self.height == 0
    }

    /// The first column of the region.
    pub open spec fn left(self) -> int {
        self.x as int
    }

    /// The column just past the region.
    pub open spec fn right(self) -> int {
        self.x + self.width
    }

    /// The first row of the region.
    pub open spec fn top(self) -> int {
        self.y as int
    }

    /// The row just past the region.
    pub open spec fn bottom(self) -> int {
        self.y + self.height
    }

    /// The pixel at column `column` and row `row` lies in the region.
    pub open spec fn covers(self, column: int, row: int) -> bool {
        self.left() <= column < self.right() && self.top() <= row < self.bottom()
    }

    /// The two regions share at least one pixel.
    pub open spec fn intersects(self, other: Region) -> bool {
        &&& spans_meet(self.left(), self.right(), other.left(), other.right())
        &&& spans_meet(self.top(), self.bottom(), other.top(), other.bottom())
    }

    /// Every field, multiplied by `m`, is still a value of `i32`.
    pub open spec fn fits_scaled_by(self, m: int) -> bool {
        &&& fits_i32(self.x * m)
        &&& fits_i32(self.y * m)
        &&& fits_i32(self.width * m)
        &&& fits_i32(self.height * m)
    }

    /// The region with every field multiplied by `m`. Says what it means only
    /// where [`Region::fits_scaled_by`] holds.
    pub open spec fn in_original_space(self, m: int) -> Region {
        Region {
            x: (self.x * m) as i32,
            y: (self.y * m) as i32,
            width: (self.width * m) as i32,
            height: (self.height * m) as i32,
        }
    }

    /// The region with every field scaled down by `scale` and rounded to
    /// whole pixels.
    pub open spec fn in_preprocessed_space(self, scale: ScaleFactor) -> Region {
        Region {
            x: scale.scaled(self.x as int) as i32,
            y: scale.scaled(self.y as int) as i32,
            width: scale.scaled(self.width as int) as i32,
            height: scale.scaled(self.height as int) as i32,
        }
    }

    /// The region at `x`, `y` that is `width` wide and `height` high, if
    /// neither extent is negative.
    pub fn new(x: i32, y: i32, width: i32, height: i32) -> (made: Option<Region>)
        ensures
            made is Some <==> width >= 0 && height >= 0,
            made matches Some(region) ==> region.wf() && region == (Region { x, y, width, height }),
    {
        if width >= 0 && height >= 0 {
            Some(Region { x, y, width, height })
        } else {
            None
        }
    }

    /// Whether the two regions share at least one pixel.
    pub fn overlaps(&self, other: &Region) -> (shared: bool)
        ensures
            shared == self.intersects(*other),
    {
        let left: i64 = self.x as i64;
        let right: i64 = self.x as i64 + self.width as i64;
        let top: i64 = self.y as i64;
        let bottom: i64 = self.y as i64 + self.height as i64;
        let other_left: i64 = other.x as i64;
        let other_right: i64 = other.x as i64 + other.width as i64;
        let other_top: i64 = other.y as i64;
        let other_bottom: i64 = other.y as i64 + other.height as i64;
        spans_share(left, right, other_left, other_right) && spans_share(
            top,
            bottom,
            other_top,
            other_bottom,
        )
    }

    /// Maps a region found in a shrunken frame back to the frame it came
    /// from: every field is multiplied by the inverse multiplier of the
    /// downscale factor.
    ///
    /// The products have to be values of `i32`;
    /// [`Region::checked_to_original_space`] tests that first.
    pub fn to_original_space(&self, inverse_scale: u32) -> (mapped: Region)
        requires
            self.fits_scaled_by(inverse_scale as int),
        ensures
            mapped.x == self.x * inverse_scale,
            mapped.y == self.y * inverse_scale,
            mapped.width == self.width * inverse_scale,
            mapped.height == self.height * inverse_scale,
            mapped == self.in_original_space(inverse_scale as int),
            self.wf() ==> mapped.wf(),
            self.is_zero() ==> mapped.is_zero(),
    {
        let mapped = Region {
            x: scale_field(self.x, inverse_scale),
            y: scale_field(self.y, inverse_scale),
            width: scale_field(self.width, inverse_scale),
            height: scale_field(self.height, inverse_scale),
        };
        proof {
            lemma_product_keeps_sign(self.width as int, inverse_scale as int);
            lemma_product_keeps_sign(self.height as int, inverse_scale as int);
        }
        mapped
    }

    /// Maps a region back to the original frame where every product is a
    /// value of `i32`, and gives `None` where one is not.
    pub fn checked_to_original_space(&self, inverse_scale: u32) -> (mapped: Option<Region>)
        ensures
            mapped is Some <==> self.fits_scaled_by(inverse_scale as int),
            mapped matches Some(region) ==> {
                &&& region.x == self.x * inverse_scale
                &&& region.y == self.y * inverse_scale
                &&& region.width == self.width * inverse_scale
                &&& region.height == self.height * inverse_scale
                &&& region == self.in_original_space(inverse_scale as int)
                &&& (self.wf() ==> region.wf())
                &&& (self.is_zero() ==> region.is_zero())
            },
    {
        if field_fits(self.x, inverse_scale) && field_fits(self.y, inverse_scale) && field_fits(
            self.width,
            inverse_scale,
        ) && field_fits(self.height, inverse_scale) {
            Some(self.to_original_space(inverse_scale))
        } else {
            None
        }
    }

    /// Maps a region of the original frame into the shrunken frame: every
    /// field is scaled down by `scale` and rounded to whole pixels.
    pub fn to_preprocessed_space(&self, scale: &ScaleFactor) -> (mapped: Region)
        ensures
            mapped.x == scale.scaled(self.x as int),
            mapped.y == scale.scaled(self.y as int),
            mapped.width == scale.scaled(self.width as int),
            mapped.height == scale.scaled(self.height as int),
            mapped == self.in_preprocessed_space(*scale),
            self.wf() ==> mapped.wf(),
            self.is_zero() ==> mapped.is_zero(),
    {
        Region {
            x: scale.scale_length(self.x),
            y: scale.scale_length(self.y),
            width: scale.scale_length(self.width),
            height: scale.scale_length(self.height),
        }
    }
}

/// Whether the spans `from..until` and `other_from..other_until` share a
/// whole number.
pub fn spans_share(from: i64, until: i64, other_from: i64, other_until: i64) -> (shared: bool)
    ensures
        shared == spans_meet(from as int, until as int, other_from as int, other_until as int),
{
    from < until && other_from < other_until && from < other_until && other_from < until
}

/// Two spans meet just where some whole number lies in both.
pub proof fn lemma_spans_meet_at_a_number(from: int, until: int, other_from: int, other_until: int)
    ensures
        spans_meet(from, until, other_from, other_until) <==> exists|n: int|
            #[trigger] in_span(n, from, until) && in_span(n, other_from, other_until),
{
    if spans_meet(from, until, other_from, other_until) {
        let n = if from >= other_from {
            from
        } else {
            other_from
        };
        assert(in_span(n, from, until) && in_span(n, other_from, other_until));
    }
}

/// Two regions intersect just where some pixel lies in both.
pub proof fn lemma_intersects_is_a_shared_pixel(a: Region, b: Region)
    ensures
        a.intersects(b) <==> exists|column: int, row: int|
            a.covers(column, row) && b.covers(column, row),
{
    if a.intersects(b) {
        let column = if a.left() >= b.left() {
            a.left()
        } else {
            b.left()
        };
        let row = if a.top() >= b.top() {
            a.top()
        } else {
            b.top()
        };
        assert(a.covers(column, row) && b.covers(column, row));
    }
}

/// A product of a non-negative number and a multiplier that is not negative
/// is not negative, and a product with zero is zero.
proof fn lemma_product_keeps_sign(v: int, m: int)
    requires
        m >= 0,
    ensures
        v >= 0 ==> v * m >= 0,
        v == 0 ==> v * m == 0,
{
    assert(v >= 0 ==> v * m >= 0) by (nonlinear_arith)
        requires
            m >= 0,
    ;
}

/// Whether `v * m` is a value of `i32`.
fn field_fits(v: i32, m: u32) -> (fits: bool)
    ensures
        fits == fits_i32(v * m),
{
    let product: i64 = wide_product(v, m);
    -0x8000_0000 <= product && product <= 0x7fff_ffff
}

/// `v * m`, where that is a value of `i32`.
fn scale_field(v: i32, m: u32) -> (scaled: i32)
    requires
        fits_i32(v * m),
    ensures
        scaled == v * m,
{
    wide_product(v, m) as i32
}

/// `v * m` in 64 bits, which hold every such product.
fn wide_product(v: i32, m: u32) -> (product: i64)
    ensures
        product == v * m,
{
    assert(-0x8000_0000 * 0xffff_ffff <= v * m <= 0x7fff_ffff * 0xffff_ffff) by (nonlinear_arith)
        requires
            -0x8000_0000 <= v <= 0x7fff_ffff,
            0 <= m <= 0xffff_ffff,
    ;
    (v as i64) * (m as i64)
}

} // verus!
