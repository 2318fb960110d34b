//! Mapping the regions of one frame from the shrunken frame back to the
//! original: the same multiplier for every region.

use vstd::prelude::*;

use crate::region::Region;

verus! {

/// `region` in the original frame, if all of its fields are values of `i32`
/// there.
pub open spec fn mapped_back(region: Region, m: int) -> Option<Region> {
    if region.fits_scaled_by(m) {
        Some(region.in_original_space(m))
    } else {
        None
    }
}

/// The regions of `detected` in the original frame, in the same order,
/// without those that the original frame's coordinates cannot hold.
pub open spec fn original_regions(detected: Seq<Region>, m: int) -> Seq<Region> {
    detected.filter_map(|region: Region| mapped_back(region, m))
}

/// Maps every region of `detected` back to the original frame, with one
/// multiplier for all of them. A region whose coordinates would leave the
/// range of `i32` is left out; the order of the others is kept.
pub fn to_original_regions(detected: &Vec<Region>, inverse_scale: u32) -> (mapped: Vec<Region>)
    ensures
        mapped@ == original_regions(detected@, inverse_scale as int),
        mapped.len() <= detected.len(),
{
    let ghost m = inverse_scale as int;
    let ghost back = |region: Region| mapped_back(region, m);
    let mut mapped: Vec<Region> = Vec::new();
    let mut i: usize = 0;
    while i < detected.len()
        invariant
            i <= detected.len(),
            m == inverse_scale as int,
            back == |region: Region| mapped_back(region, m),
            mapped@ == detected@.take(i as int).filter_map(back),
            mapped.len() <= i,
        decreases detected.len() - i,
    {
        proof {
            detected@.lemma_filter_map_take_succ(back, i as int);
        }
        match detected[i].checked_to_original_space(inverse_scale) {
            Some(region) => {
                mapped.push(region);
            },
            None => {},
        }
        i = i + 1;
    }
    proof {
        detected@.lemma_take_len();
    }
    mapped
}

/// Where every region of a frame fits, mapping the frame's regions is
/// mapping each of them: none is lost, none moves, and each has every field
/// multiplied by the same multiplier.
pub proof fn lemma_original_regions_when_all_fit(detected: Seq<Region>, m: int)
    requires
        forall|i: int| 0 <= i < detected.len() ==> (#[trigger] detected[i]).fits_scaled_by(m),
    ensures
        original_regions(detected, m).len() == detected.len(),
        forall|i: int|
            0 <= i < detected.len() ==> #[trigger] original_regions(detected, m)[i]
                == detected[i].in_original_space(m),
    decreases detected.len(),
{
    let back = |region: Region| mapped_back(region, m);
    if detected.len() > 0 {
        let rest = detected.drop_last();
        lemma_original_regions_when_all_fit(rest, m);
        assert(original_regions(detected, m) == original_regions(rest, m) + seq![
            detected.last().in_original_space(m),
        ]);
    }
}

/// No detections, no regions.
pub proof fn lemma_original_regions_of_none(m: int)
    ensures
        original_regions(Seq::<Region>::empty(), m) == Seq::<Region>::empty(),
{
}

} // verus!
