//! The shape of a frame, and the chain of transforms that prepares a frame
//! for detection: to grayscale, down by the scale factor, then histogram
//! equalisation.

use vstd::prelude::*;

use crate::region::Region;
use crate::scale::ScaleFactor;

verus! {

/// How the pixels of a frame are laid out.
#[derive(Clone, Copy, Debug, PartialEq, Eq, Structural)]
pub enum ChannelLayout {
    /// Three channels per pixel.
    Color,
    /// One channel per pixel.
    Grayscale,
}

impl ChannelLayout {
    /// The number of channels per pixel.
    pub open spec fn channels(self) -> int {
        match self {
            ChannelLayout::Color => 3,
            ChannelLayout::Grayscale => 1,
        }
    }

    /// The layout with `count` channels per pixel, if there is one.
    pub open spec fn of_count(count: int) -> Option<ChannelLayout> {
        if count == 3 {
            Some(ChannelLayout::Color)
        } else if count == 1 {
            Some(ChannelLayout::Grayscale)
        } else {
            None
        }
    }

    /// The number of channels per pixel.
    pub fn channel_count(&self) -> (count: i32)
        ensures
            count == self.channels(),
    {
        match self {
            ChannelLayout::Color => 3,
            ChannelLayout::Grayscale => 1,
        }
    }

    /// The layout with `count` channels per pixel: color for three,
    /// grayscale for one, none for any other count.
    pub fn from_channel_count(count: i32) -> (layout: Option<ChannelLayout>)
        ensures
            layout == ChannelLayout::of_count(count as int),
    {
        if count == 3 {
            Some(ChannelLayout::Color)
        } else if count == 1 {
            Some(ChannelLayout::Grayscale)
        } else {
            None
        }
    }
}

/// What the pipeline reads of a frame: its width and height in pixels and
/// its channel layout.
#[derive(Clone, Copy, Debug, PartialEq, Eq, Structural)]
pub struct FrameShape {
    pub width: i32,
    pub height: i32,
    pub layout: ChannelLayout,
}

impl FrameShape {
    /// Neither dimension is negative.
    pub open spec fn wf(self) -> bool {
        self.width >= 0 && self.height >= 0
    }

    /// The frame holds no pixel.
    pub open spec fn is_empty(self) -> bool {
        self.width <= 0 || self.height <= 0
    }

    /// The region that covers the whole frame.
    pub open spec fn bounds(self) -> Region {
        Region { x: 0, y: 0, width: self.width, height: self.height }
    }

    /// The shape of this frame once prepared for detection: grayscale, each
    /// dimension scaled by `scale` and rounded to whole pixels.
    pub open spec fn preprocessed(self, scale: ScaleFactor) -> FrameShape {
        FrameShape {
            width: scale.scaled(self.width as int) as i32,
            height: scale.scaled(self.height as int) as i32,
            layout: ChannelLayout::Grayscale,
        }
    }

    /// The shape of a frame that is `width` wide and `height` high, if
    /// neither is negative.
    pub fn new(width: i32, height: i32, layout: ChannelLayout) -> (made: Option<FrameShape>)
        ensures
            made is Some <==> width >= 0 && height >= 0,
            made matches Some(shape) ==> shape.wf() && shape == (FrameShape {
                width,
                height,
                layout,
            }),
    {
        if width >= 0 && height >= 0 {
            Some(FrameShape { width, height, layout })
        } else {
            None
        }
    }

    /// The region that covers the whole frame.
    pub fn frame_bounds(&self) -> (region: Region)
        ensures
            region == self.bounds(),
            self.wf() ==> region.wf(),
    {
        Region { x: 0, y: 0, width: self.width, height: self.height }
    }
}

/// One transform of the chain.
#[derive(Clone, Copy, Debug, PartialEq, Eq, Structural)]
pub enum PreprocessStep {
    /// Reduce a color frame to one luminance channel.
    ToGrayscale,
    /// Resample to `width` by `height` pixels with linear interpolation.
    DownscaleLinear { width: i32, height: i32 },
    /// Normalise contrast by histogram equalisation.
    EqualizeHistogram,
}

impl PreprocessStep {
    /// The shape that the step gives to a frame of shape `input`.
    pub open spec fn shape_after(self, input: FrameShape) -> FrameShape {
        match self {
            PreprocessStep::ToGrayscale => FrameShape {
                width: input.width,
                height: input.height,
                layout: ChannelLayout::Grayscale,
            },
            PreprocessStep::DownscaleLinear { width, height } => FrameShape {
                width,
                height,
                layout: input.layout,
            },
            PreprocessStep::EqualizeHistogram => input,
        }
    }
}

/// The shape that a frame of shape `input` has after `steps`, taken in order.
pub open spec fn shape_after_all(steps: Seq<PreprocessStep>, input: FrameShape) -> FrameShape
    decreases steps.len(),
{
    if steps.len() == 0 {
        input
    } else {
        steps.last().shape_after(shape_after_all(steps.drop_last(), input))
    }
}

/// Why a frame cannot be prepared for detection.
#[derive(Clone, Copy, Debug, PartialEq, Eq, Structural)]
pub enum PreprocessError {
    /// The frame is not a three-channel color frame.
    NotColor,
    /// The frame has no pixels.
    EmptyFrame,
    /// The frame is so small that scaling it down leaves no pixels.
    VanishingOutput,
}

/// The chain of transforms for one frame, with the shape that goes in and
/// the shape that comes out.
#[derive(Clone, Copy, Debug, PartialEq, Eq, Structural)]
pub struct PreprocessPlan {
    pub source: FrameShape,
    pub output: FrameShape,
}

impl PreprocessPlan {
    /// The transforms, in the order in which they are applied.
    pub open spec fn chain(self) -> Seq<PreprocessStep> {
        seq![
            PreprocessStep::ToGrayscale,
            PreprocessStep::DownscaleLinear { width: self.output.width, height: self.output.height },
            PreprocessStep::EqualizeHistogram,
        ]
    }

    /// The plan for a frame of shape `frame` under `scale`, or the reason
    /// why there is none.
    pub open spec fn planned(frame: FrameShape, scale: ScaleFactor) -> Result<
        PreprocessPlan,
        PreprocessError,
    > {
        if frame.layout != ChannelLayout::Color {
            Err(PreprocessError::NotColor)
        } else if frame.is_empty() {
            Err(PreprocessError::EmptyFrame)
        } else if frame.preprocessed(scale).is_empty() {
            Err(PreprocessError::VanishingOutput)
        } else {
            Ok(PreprocessPlan { source: frame, output: frame.preprocessed(scale) })
        }
    }

    /// Plans the preparation of a frame of shape `frame`.
    ///
    /// A frame that is not in color, holds no pixels, or would hold none
    /// after scaling is refused. For any other frame the output is grayscale
    /// and each of its dimensions is that of the frame times the factor,
    /// rounded to whole pixels.
    pub fn plan(frame: FrameShape, scale: &ScaleFactor) -> (planned: Result<
        PreprocessPlan,
        PreprocessError,
    >)
        ensures
            planned == PreprocessPlan::planned(frame, *scale),
            planned matches Ok(plan) ==> {
                &&& plan.source == frame
                &&& plan.output.width == scale.scaled(frame.width as int)
                &&& plan.output.height == scale.scaled(frame.height as int)
                &&& plan.output.layout == ChannelLayout::Grayscale
                &&& 0 < plan.output.width <= frame.width
                &&& 0 < plan.output.height <= frame.height
            },
    {
        match frame.layout {
            ChannelLayout::Grayscale => {
                return Err(PreprocessError::NotColor);
            },
            ChannelLayout::Color => {},
        }
        if frame.width <= 0 || frame.height <= 0 {
            return Err(PreprocessError::EmptyFrame);
        }
        let width: i32 = scale.scale_length(frame.width);
        let height: i32 = scale.scale_length(frame.height);
        if width <= 0 || height <= 0 {
            return Err(PreprocessError::VanishingOutput);
        }
        Ok(
            PreprocessPlan {
                source: frame,
                output: FrameShape { width, height, layout: ChannelLayout::Grayscale },
            },
        )
    }

    /// The transforms, in the order in which they are to be applied.
    pub fn steps(&self) -> (steps: Vec<PreprocessStep>)
        ensures
            steps@ == self.chain(),
    {
        let mut steps: Vec<PreprocessStep> = Vec::new();
        steps.push(PreprocessStep::ToGrayscale);
        steps.push(
            PreprocessStep::DownscaleLinear { width: self.output.width, height: self.output.height },
        );
        steps.push(PreprocessStep::EqualizeHistogram);
        steps
    }
}

/// Applying the chain of a plan to its source, step by step, gives the
/// plan's output: a grayscale frame whose dimensions are those of the source
/// times the factor, rounded to whole pixels.
pub proof fn lemma_chain_reaches_output(frame: FrameShape, scale: ScaleFactor)
    requires
        scale.wf(),
        PreprocessPlan::planned(frame, scale) is Ok,
    ensures
        ({
            let plan = PreprocessPlan::planned(frame, scale)->Ok_0;
            &&& shape_after_all(plan.chain(), frame) == plan.output
            &&& plan.output == frame.preprocessed(scale)
            &&& plan.output.width == scale.scaled(frame.width as int)
            &&& plan.output.height == scale.scaled(frame.height as int)
        }),
{
    let plan = PreprocessPlan::planned(frame, scale)->Ok_0;
    let chain = plan.chain();
    crate::round_trip::lemma_scaled_fits(scale, frame.width as int);
    crate::round_trip::lemma_scaled_fits(scale, frame.height as int);
    let first_two = chain.drop_last();
    let first = first_two.drop_last();
    assert(first.drop_last() == Seq::<PreprocessStep>::empty());
    assert(first.last() == PreprocessStep::ToGrayscale);
    assert(first_two.last() == PreprocessStep::DownscaleLinear {
        width: plan.output.width,
        height: plan.output.height,
    });
    assert(chain.last() == PreprocessStep::EqualizeHistogram);
    reveal_with_fuel(shape_after_all, 4);
}

} // verus!
