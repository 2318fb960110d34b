//! Which regions get a marker, and what the marker looks like.
//!
//! A marker is the outline of a region, drawn onto the original frame by a
//! drawing primitive that clips at the frame's edges. A stroke of the
//! outline reaches at most its thickness beyond the region, so a region that
//! lies further than that from the frame cannot leave a trace on it: such a
//! region is not handed to the primitive at all.

use vstd::prelude::*;

use crate::frame::FrameShape;
use crate::region::{spans_meet, spans_share, Region};

verus! {

/// A color, one byte per channel.
#[derive(Clone, Copy, Debug, PartialEq, Eq, Structural)]
pub struct Color {
    pub blue: u8,
    pub green: u8,
    pub red: u8,
}

/// How a marker is drawn: an unfilled outline in `color`, with strokes
/// `thickness` pixels thick.
#[derive(Clone, Copy, Debug, PartialEq, Eq, Structural)]
pub struct MarkerStyle {
    pub color: Color,
    pub thickness: u16,
}

impl MarkerStyle {
    /// Pure red, two pixels thick.
    pub open spec fn red_outline() -> MarkerStyle {
        MarkerStyle { color: Color { blue: 0, green: 0, red: 255 }, thickness: 2 }
    }

    /// The style of every marker: pure red, two pixels thick.
    pub fn standard() -> (style: MarkerStyle)
        ensures
            style == MarkerStyle::red_outline(),
    {
        MarkerStyle { color: Color { blue: 0, green: 0, red: 255 }, thickness: 2 }
    }
}

/// The lesser of two numbers.
pub open spec fn lesser(a: int, b: int) -> int {
    if a <= b {
        a
    } else {
        b
    }
}

/// The greater of two numbers.
pub open spec fn greater(a: int, b: int) -> int {
    if a >= b {
        a
    } else {
        b
    }
}

impl Region {
    /// The region lies wholly beside, above or below the frame.
    pub open spec fn outside(self, frame: FrameShape) -> bool {
        ||| self.right() <= 0
        ||| self.left() >= frame.width
        ||| self.bottom() <= 0
        ||| self.top() >= frame.height
    }

    /// A marker of the region, drawn with strokes of the given thickness,
    /// may paint the pixel at `column` and `row`: the pixel lies in the
    /// region grown by the thickness on every side.
    pub open spec fn marker_reaches(self, thickness: int, column: int, row: int) -> bool {
        &&& lesser(self.left(), self.right()) - thickness <= column < greater(
            self.left(),
            self.right(),
        ) + thickness
        &&& lesser(self.top(), self.bottom()) - thickness <= row < greater(
            self.top(),
            self.bottom(),
        ) + thickness
    }

    /// The marker of the region, drawn with strokes of the given thickness,
    /// may touch a pixel of the frame: the region, grown by the thickness on
    /// every side, shares a pixel with the frame.
    pub open spec fn marker_meets(self, frame: FrameShape, thickness: int) -> bool {
        &&& spans_meet(
            lesser(self.left(), self.right()) - thickness,
            greater(self.left(), self.right()) + thickness,
            0,
            frame.width as int,
        )
        &&& spans_meet(
            lesser(self.top(), self.bottom()) - thickness,
            greater(self.top(), self.bottom()) + thickness,
            0,
            frame.height as int,
        )
    }

    /// Whether the marker of the region may touch a pixel of the frame.
    pub fn marker_may_touch(&self, frame: &FrameShape, thickness: u16) -> (touches: bool)
        ensures
            touches == self.marker_meets(*frame, thickness as int),
    {
        let reach: i64 = thickness as i64;
        let left: i64 = self.x as i64;
        let right: i64 = self.x as i64 + self.width as i64;
        let top: i64 = self.y as i64;
        let bottom: i64 = self.y as i64 + self.height as i64;
        let low_x: i64 = if left <= right { left } else { right };
        let high_x: i64 = if left >= right { left } else { right };
        let low_y: i64 = if top <= bottom { top } else { bottom };
        let high_y: i64 = if top >= bottom { top } else { bottom };
        spans_share(low_x - reach, high_x + reach, 0, frame.width as i64) && spans_share(
            low_y - reach,
            high_y + reach,
            0,
            frame.height as i64,
        )
    }
}

/// The regions of `regions` whose marker may touch the frame, in the same
/// order.
pub open spec fn markers(regions: Seq<Region>, frame: FrameShape, thickness: int) -> Seq<Region> {
    regions.filter(|region: Region| region.marker_meets(frame, thickness))
}

/// Picks the regions to mark on a frame: those whose marker may touch it, in
/// the order given. Any region is taken, wherever it lies and whatever its
/// size; one that lies out of reach of the frame is left out.
pub fn visible_markers(regions: &Vec<Region>, frame: &FrameShape, style: &MarkerStyle) -> (picked:
    Vec<Region>)
    ensures
        picked@ == markers(regions@, *frame, style.thickness as int),
        picked.len() <= regions.len(),
{
    let ghost meets = |region: Region| region.marker_meets(*frame, style.thickness as int);
    let mut picked: Vec<Region> = Vec::new();
    let mut i: usize = 0;
    while i < regions.len()
        invariant
            i <= regions.len(),
            meets == |region: Region| region.marker_meets(*frame, style.thickness as int),
            picked@ == regions@.take(i as int).filter(meets),
            picked.len() <= i,
        decreases regions.len() - i,
    {
        proof {
            regions@.lemma_take_succ_push(i as int);
            regions@.take(i as int).lemma_filter_push(regions@[i as int], meets);
        }
        if regions[i].marker_may_touch(frame, style.thickness) {
            picked.push(regions[i]);
        }
        i = i + 1;
    }
    proof {
        regions@.lemma_take_len();
    }
    picked
}

/// The marker of a region may touch the frame just where it may paint one of
/// the frame's pixels.
pub proof fn lemma_marker_meets_is_a_pixel_in_reach(
    region: Region,
    frame: FrameShape,
    thickness: int,
)
    ensures
        region.marker_meets(frame, thickness) <==> exists|column: int, row: int|
            frame.bounds().covers(column, row) && region.marker_reaches(thickness, column, row),
{
    if region.marker_meets(frame, thickness) {
        let column = greater(0, lesser(region.left(), region.right()) - thickness);
        let row = greater(0, lesser(region.top(), region.bottom()) - thickness);
        assert(frame.bounds().covers(column, row) && region.marker_reaches(thickness, column, row));
    }
}

/// A region that lies outside the frame, further from it than the strokes
/// are thick, gets no marker.
pub proof fn lemma_region_out_of_reach_is_skipped(region: Region, frame: FrameShape, thickness: int)
    requires
        region.wf(),
        frame.wf(),
        thickness >= 0,
        ({
            ||| region.right() + thickness <= 0
            ||| region.left() - thickness >= frame.width
            ||| region.bottom() + thickness <= 0
            ||| region.top() - thickness >= frame.height
        }),
    ensures
        region.outside(frame),
        !region.marker_meets(frame, thickness),
{
}

/// A region that shares a pixel with the frame gets a marker, whatever part
/// of it lies beyond the frame.
pub proof fn lemma_region_on_frame_is_marked(region: Region, frame: FrameShape, thickness: int)
    requires
        thickness >= 0,
        region.intersects(frame.bounds()),
    ensures
        region.marker_meets(frame, thickness),
{
}

/// Every region picked for a frame is one of those given, and its marker may
/// touch the frame; every region given whose marker may touch the frame is
/// picked.
pub proof fn lemma_markers_are_the_regions_in_reach(
    regions: Seq<Region>,
    frame: FrameShape,
    thickness: int,
)
    ensures
        forall|i: int|
            0 <= i < markers(regions, frame, thickness).len() ==> {
                &&& regions.contains(#[trigger] markers(regions, frame, thickness)[i])
                &&& markers(regions, frame, thickness)[i].marker_meets(frame, thickness)
            },
        forall|i: int|
            0 <= i < regions.len() && regions[i].marker_meets(frame, thickness) ==> markers(
                regions,
                frame,
                thickness,
            ).contains(#[trigger] regions[i]),
    decreases regions.len(),
{
    let meets = |region: Region| region.marker_meets(frame, thickness);
    let picked = regions.filter(meets);
    reveal(Seq::filter);
    if regions.len() > 0 {
        let rest = regions.drop_last();
        let earlier = rest.filter(meets);
        lemma_markers_are_the_regions_in_reach(rest, frame, thickness);
        assert(earlier == markers(rest, frame, thickness));
        assert(picked == markers(regions, frame, thickness));
        assert forall|i: int| 0 <= i < picked.len() implies regions.contains(#[trigger] picked[i])
            && picked[i].marker_meets(frame, thickness) by {
            if i < earlier.len() {
                assert(picked[i] == earlier[i]);
                assert(rest.contains(markers(rest, frame, thickness)[i]));
                let j = choose|j: int| 0 <= j < rest.len() && rest[j] == earlier[i];
                assert(regions[j] == picked[i]);
            } else {
                assert(picked[i] == regions.last());
                assert(regions[regions.len() - 1] == picked[i]);
            }
        }
        assert forall|i: int|
            0 <= i < regions.len() && regions[i].marker_meets(frame, thickness) implies picked.contains(
            #[trigger] regions[i],
        ) by {
            if i < rest.len() {
                assert(rest[i] == regions[i]);
                assert(markers(rest, frame, thickness).contains(rest[i]));
                let j = choose|j: int| 0 <= j < earlier.len() && earlier[j] == rest[i];
                assert(picked[j] == regions[i]);
            } else {
                assert(picked[picked.len() - 1] == regions[i]);
            }
        }
    }
}

/// Regions that all lie out of reach of the frame give no marker at all.
pub proof fn lemma_no_markers_out_of_reach(regions: Seq<Region>, frame: FrameShape, thickness: int)
    requires
        forall|i: int|
            0 <= i < regions.len() ==> !(#[trigger] regions[i]).marker_meets(frame, thickness),
    ensures
        markers(regions, frame, thickness).len() == 0,
{
    let meets = |region: Region| region.marker_meets(frame, thickness);
    assert(regions.all(|region: Region| !meets(region)));
    regions.lemma_all_neg_filter_empty(meets);
}

} // verus!
