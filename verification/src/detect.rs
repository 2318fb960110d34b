//! What the pipeline asks of the detection engine, and what it keeps of the
//! engine's answer.

use vstd::prelude::*;

use crate::region::Region;

verus! {

/// A width and a height, in pixels.
#[derive(Clone, Copy, Debug, PartialEq, Eq, Structural)]
pub struct Extent {
    pub width: i32,
    pub height: i32,
}

/// The parameters of a detection call. They are fixed: no call chooses its
/// own.
#[derive(Clone, Copy, Debug, PartialEq, Eq)]
pub struct DetectionConfig {
    /// The ratio between the sizes of successive candidates is
    /// `scale_step_numerator / scale_step_denominator`.
    pub scale_step_numerator: u32,
    pub scale_step_denominator: u32,
    /// How many neighbouring candidates must agree on a candidate to keep it.
    pub min_neighbors: i32,
    /// The smallest candidate, in pixels of the frame handed to detection.
    pub min_size: Extent,
    /// The largest candidate, if candidates are limited in size.
    pub max_size: Option<Extent>,
}

impl DetectionConfig {
    /// The fixed parameters: candidates grow by 11/10 from one size to the
    /// next, two neighbours must agree, no candidate is smaller than 30 by 30
    /// pixels, and none is too large.
    pub open spec fn fixed() -> DetectionConfig {
        DetectionConfig {
            scale_step_numerator: 11,
            scale_step_denominator: 10,
            min_neighbors: 2,
            min_size: Extent { width: 30, height: 30 },
            max_size: None,
        }
    }

    /// The fixed parameters of every detection call.
    pub fn standard() -> (config: DetectionConfig)
        ensures
            config == DetectionConfig::fixed(),
    {
        DetectionConfig {
            scale_step_numerator: 11,
            scale_step_denominator: 10,
            min_neighbors: 2,
            min_size: Extent { width: 30, height: 30 },
            max_size: None,
        }
    }
}

/// How a detection call ended.
#[derive(Debug, PartialEq, Eq)]
pub enum DetectionOutcome {
    /// The engine ran to its end and found these regions, possibly none.
    Found(Vec<Region>),
    /// The engine reported a fault. `partial` holds whatever it had written
    /// down by then.
    Fault { partial: Vec<Region> },
}

impl DetectionOutcome {
    /// The regions that the pipeline goes on with: those found, and none at
    /// all after a fault, whatever the engine had written down.
    pub open spec fn accepted(self) -> Seq<Region> {
        match self {
            DetectionOutcome::Found(regions) => regions@,
            DetectionOutcome::Fault { partial } => Seq::empty(),
        }
    }

    /// The regions that the pipeline goes on with. A fault yields the empty
    /// list: partial results are dropped, so that a faulted call never marks
    /// a frame.
    pub fn into_regions(self) -> (regions: Vec<Region>)
        ensures
            regions@ == self.accepted(),
    {
        match self {
            DetectionOutcome::Found(regions) => regions,
            DetectionOutcome::Fault { partial } => Vec::new(),
        }
    }
}

} // verus!
