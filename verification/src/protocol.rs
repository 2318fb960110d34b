//! What passes between the control loop and whoever drives it: the events
//! that the loop is told of, and the actions it asks for.

use vstd::prelude::*;

use crate::annotate::MarkerStyle;
use crate::detect::{DetectionConfig, DetectionOutcome};
use crate::frame::{ChannelLayout, FrameShape, PreprocessPlan};
use crate::region::Region;

verus! {

/// The key code that cancels the loop: escape.
pub const CANCEL_KEY: i32 = 27;

/// How long a poll for cancellation may wait, in milliseconds.
pub const POLL_TIMEOUT_MS: i32 = 10;

/// The exit code after a cancelled run.
pub const EXIT_CANCELLED: i32 = 0;

/// The exit code after a fault during setup.
pub const EXIT_FAULTED: i32 = 1;

/// Whether the loop is running, and if not, why it stopped.
#[derive(Clone, Copy, Debug, PartialEq, Eq, Structural)]
pub enum Status {
    Running,
    Cancelled,
    Faulted,
}

impl Status {
    /// The exit code of a run that stopped with this status.
    pub open spec fn exit_code(self) -> i32 {
        match self {
            Status::Faulted => EXIT_FAULTED,
            _ => EXIT_CANCELLED,
        }
    }

    /// The exit code of a run that stopped with this status: zero after a
    /// cancellation, not zero after a fault.
    pub fn code(&self) -> (code: i32)
        ensures
            code == self.exit_code(),
            *self == Status::Faulted <==> code != 0,
    {
        match self {
            Status::Faulted => EXIT_FAULTED,
            _ => EXIT_CANCELLED,
        }
    }
}

/// What the loop acquires before its first iteration and releases at its end.
#[derive(Clone, Copy, Debug, PartialEq, Eq, Structural)]
pub enum Resource {
    Detector,
    FrameSource,
    DisplaySink,
}

impl Resource {
    /// The resource acquired after this one, if there is one.
    pub open spec fn next(self) -> Option<Resource> {
        match self {
            Resource::Detector => Some(Resource::FrameSource),
            Resource::FrameSource => Some(Resource::DisplaySink),
            Resource::DisplaySink => None,
        }
    }
}

/// Which resources the loop holds. They are acquired in one order, so what is
/// held is always a beginning of that order.
#[derive(Clone, Copy, Debug, PartialEq, Eq, Structural)]
pub enum Held {
    Nothing,
    Detector,
    DetectorAndSource,
    All,
}

impl Held {
    /// The resources held, oldest first.
    pub open spec fn resources(self) -> Seq<Resource> {
        match self {
            Held::Nothing => seq![],
            Held::Detector => seq![Resource::Detector],
            Held::DetectorAndSource => seq![Resource::Detector, Resource::FrameSource],
            Held::All => seq![Resource::Detector, Resource::FrameSource, Resource::DisplaySink],
        }
    }

    /// What is held just before `resource` is acquired.
    pub open spec fn before(resource: Resource) -> Held {
        match resource {
            Resource::Detector => Held::Nothing,
            Resource::FrameSource => Held::Detector,
            Resource::DisplaySink => Held::DetectorAndSource,
        }
    }

    /// What is held once `resource` has been acquired.
    pub open spec fn with(resource: Resource) -> Held {
        match resource {
            Resource::Detector => Held::Detector,
            Resource::FrameSource => Held::DetectorAndSource,
            Resource::DisplaySink => Held::All,
        }
    }

    /// The resource acquired last, if any is held.
    pub open spec fn newest(self) -> Option<Resource> {
        match self {
            Held::Nothing => None,
            Held::Detector => Some(Resource::Detector),
            Held::DetectorAndSource => Some(Resource::FrameSource),
            Held::All => Some(Resource::DisplaySink),
        }
    }

    /// What is held once the resource acquired last has been released.
    pub open spec fn without_newest(self) -> Held {
        match self {
            Held::Nothing => Held::Nothing,
            Held::Detector => Held::Nothing,
            Held::DetectorAndSource => Held::Detector,
            Held::All => Held::DetectorAndSource,
        }
    }

    /// What is held once the `count` resources acquired last have been
    /// released, one after the other.
    pub open spec fn after_releases(self, count: nat) -> Held
        decreases count,
    {
        if count == 0 {
            self
        } else {
            self.after_releases((count - 1) as nat).without_newest()
        }
    }

    /// What is held once `resource` has been acquired.
    pub fn including(resource: Resource) -> (held: Held)
        ensures
            held == Held::with(resource),
    {
        match resource {
            Resource::Detector => Held::Detector,
            Resource::FrameSource => Held::DetectorAndSource,
            Resource::DisplaySink => Held::All,
        }
    }

    /// The resource to release first: the one acquired last, if any is held.
    pub fn release_next(&self) -> (newest: Option<Resource>)
        ensures
            newest == self.newest(),
    {
        match self {
            Held::Nothing => None,
            Held::Detector => Some(Resource::Detector),
            Held::DetectorAndSource => Some(Resource::FrameSource),
            Held::All => Some(Resource::DisplaySink),
        }
    }

    /// What is held once the resource acquired last has been released.
    pub fn released(&self) -> (rest: Held)
        ensures
            rest == self.without_newest(),
    {
        match self {
            Held::Nothing => Held::Nothing,
            Held::Detector => Held::Nothing,
            Held::DetectorAndSource => Held::Detector,
            Held::All => Held::DetectorAndSource,
        }
    }
}

/// How an attempt to acquire a resource ended.
#[derive(Clone, Copy, Debug, PartialEq, Eq, Structural)]
pub enum AcquireOutcome {
    /// The resource is there and can be used.
    Ready,
    /// The resource was opened but cannot be used. It still has to be
    /// released.
    NotReady,
    /// There is no resource.
    Failed,
}

/// How an attempt to grab a frame ended.
#[derive(Clone, Copy, Debug, PartialEq, Eq, Structural)]
pub enum GrabOutcome {
    /// A frame, described by what the source says of it.
    Frame { width: i32, height: i32, channels: i32 },
    /// No frame was ready. This is no end of the stream: the next iteration
    /// tries again.
    NoFrame,
    /// The source reported a fault for this grab.
    Fault,
}

impl GrabOutcome {
    /// The shape of the frame that was grabbed, if one was and its channel
    /// count is that of a layout.
    pub open spec fn shape(self) -> Option<FrameShape> {
        match self {
            GrabOutcome::Frame { width, height, channels } => match ChannelLayout::of_count(
                channels as int,
            ) {
                Some(layout) => Some(FrameShape { width, height, layout }),
                None => None,
            },
            _ => None,
        }
    }

    /// The shape of the frame that was grabbed, if one was and its channel
    /// count is that of a layout.
    pub fn frame_shape(&self) -> (shape: Option<FrameShape>)
        ensures
            shape == self.shape(),
    {
        match *self {
            GrabOutcome::Frame { width, height, channels } => {
                match ChannelLayout::from_channel_count(channels) {
                    Some(layout) => Some(FrameShape { width, height, layout }),
                    None => None,
                }
            },
            _ => None,
        }
    }
}

/// How the preparation of a frame ended.
#[derive(Clone, Copy, Debug, PartialEq, Eq, Structural)]
pub enum PreprocessOutcome {
    /// An image, described by what comes out of the last transform.
    Image { width: i32, height: i32, channels: i32 },
    /// One of the transforms reported a fault.
    Fault,
}

impl PreprocessOutcome {
    /// The preparation gave an image of exactly the planned shape.
    pub open spec fn fulfils(self, plan: PreprocessPlan) -> bool {
        match self {
            PreprocessOutcome::Image { width, height, channels } => {
                &&& width == plan.output.width
                &&& height == plan.output.height
                &&& channels == plan.output.layout.channels()
            },
            PreprocessOutcome::Fault => false,
        }
    }

    /// Whether the preparation gave an image of exactly the planned shape.
    pub fn meets(&self, plan: &PreprocessPlan) -> (met: bool)
        ensures
            met == self.fulfils(*plan),
    {
        match *self {
            PreprocessOutcome::Image { width, height, channels } => {
                width == plan.output.width && height == plan.output.height && channels
                    == plan.output.layout.channel_count()
            },
            PreprocessOutcome::Fault => false,
        }
    }
}

/// How long one iteration took, from the poll that opened it to the
/// presentation of its frame.
#[derive(Clone, Copy, Debug, PartialEq, Eq, Structural)]
pub struct PipelineTiming {
    pub elapsed_ms: u64,
}

impl PipelineTiming {
    /// The time from `started_ms` to `now_ms`, and none where the clock did
    /// not advance.
    pub open spec fn between(started_ms: u64, now_ms: u64) -> PipelineTiming {
        PipelineTiming {
            elapsed_ms: if now_ms >= started_ms {
                (now_ms - started_ms) as u64
            } else {
                0
            },
        }
    }

    /// The time from `started_ms` to `now_ms`, and none where the clock did
    /// not advance.
    pub fn measure(started_ms: u64, now_ms: u64) -> (timing: PipelineTiming)
        ensures
            timing == PipelineTiming::between(started_ms, now_ms),
    {
        if now_ms >= started_ms {
            PipelineTiming { elapsed_ms: now_ms - started_ms }
        } else {
            PipelineTiming { elapsed_ms: 0 }
        }
    }
}

/// What happened outside: the outcome of the action that the loop asked for.
#[derive(Debug, PartialEq, Eq)]
pub enum Event {
    /// An attempt to acquire `resource` ended.
    Acquired { resource: Resource, outcome: AcquireOutcome },
    /// The poll for cancellation ended at `now_ms` on the driver's clock.
    /// `key` is the key that was pressed, if one was.
    Polled { key: Option<i32>, now_ms: u64 },
    /// The grab ended.
    Grabbed(GrabOutcome),
    /// The preparation of the frame ended.
    Preprocessed(PreprocessOutcome),
    /// The detection ended.
    Detected(DetectionOutcome),
    /// The markers are drawn.
    Annotated,
    /// The frame is shown; that was at `now_ms` on the driver's clock.
    Presented { now_ms: u64 },
    /// The report is out.
    Reported,
    /// The resource is released.
    Released,
}

impl Event {
    /// The event is a poll at which the cancel key was found pressed.
    pub open spec fn cancels(self) -> bool {
        match self {
            Event::Polled { key, .. } => key == Some(CANCEL_KEY),
            _ => false,
        }
    }

    /// The event is the end of a preparation that gave an image of exactly
    /// the planned shape.
    pub open spec fn delivers(self, plan: PreprocessPlan) -> bool {
        match self {
            Event::Preprocessed(outcome) => outcome.fulfils(plan),
            _ => false,
        }
    }
}

/// What the loop asks for next.
#[derive(Debug, PartialEq, Eq)]
pub enum Action {
    /// Acquire this resource.
    Acquire(Resource),
    /// Poll for cancellation, waiting no longer than this.
    PollCancel { timeout_ms: i32 },
    /// Grab the next frame.
    GrabFrame,
    /// Prepare the frame for detection as planned.
    Preprocess(PreprocessPlan),
    /// Run detection on the prepared image with these parameters.
    Detect(DetectionConfig),
    /// Draw a marker for each of these regions onto the original frame.
    Annotate { markers: Vec<Region>, style: MarkerStyle },
    /// Show the original frame.
    Present,
    /// Report the number of detections and the time the iteration took.
    Report { detections: usize, timing: PipelineTiming },
    /// Release this resource.
    Release(Resource),
    /// Leave with this exit code.
    Exit { code: i32 },
}

/// An [`Action`] as plain data.
pub enum ActionView {
    Acquire(Resource),
    PollCancel { timeout_ms: i32 },
    GrabFrame,
    Preprocess(PreprocessPlan),
    Detect(DetectionConfig),
    Annotate { markers: Seq<Region>, style: MarkerStyle },
    Present,
    Report { detections: usize, timing: PipelineTiming },
    Release(Resource),
    Exit { code: i32 },
}

impl View for Action {
    type V = ActionView;

    open spec fn view(&self) -> ActionView {
        match *self {
            Action::Acquire(resource) => ActionView::Acquire(resource),
            Action::PollCancel { timeout_ms } => ActionView::PollCancel { timeout_ms },
            Action::GrabFrame => ActionView::GrabFrame,
            Action::Preprocess(plan) => ActionView::Preprocess(plan),
            Action::Detect(config) => ActionView::Detect(config),
            Action::Annotate { markers, style } => ActionView::Annotate {
                markers: markers@,
                style,
            },
            Action::Present => ActionView::Present,
            Action::Report { detections, timing } => ActionView::Report { detections, timing },
            Action::Release(resource) => ActionView::Release(resource),
            Action::Exit { code } => ActionView::Exit { code },
        }
    }
}

} // verus!
