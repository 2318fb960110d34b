//! The control loop of the pipeline, as a state machine.
//!
//! The loop itself does nothing to the outside world. It is told what
//! happened (an [`Event`]) and answers with what to do next (an [`Action`]).
//! Whoever drives it performs the action and reports the outcome as the next
//! event.
//!
//! A run has three stretches. Setup acquires the detector, the frame source
//! and the display sink, in that order; a failure there is a fault, and the
//! only kind of fault there is. Then iterations follow one another: poll for
//! cancellation, grab a frame, prepare it, detect, mark, present, report.
//! Whatever goes wrong inside an iteration ends that iteration and nothing
//! else. Cancellation is seen at the poll that opens an iteration and nowhere
//! else. At the end, what was acquired is released, newest first.

use vstd::prelude::*;

use crate::annotate::{markers, visible_markers, MarkerStyle};
use crate::detect::{DetectionConfig, DetectionOutcome};
use crate::frame::{FrameShape, PreprocessPlan};
use crate::mapper::{original_regions, to_original_regions};
use crate::protocol::{AcquireOutcome, Action, ActionView, Event, GrabOutcome, Held,
    PipelineTiming, PreprocessOutcome, Resource, Status, CANCEL_KEY, POLL_TIMEOUT_MS};
use crate::region::Region;
use crate::scale::ScaleFactor;

verus! {

/// What the loop is waiting for. The phases of an iteration carry what the
/// iteration has found out so far; none of it outlives the iteration.
#[derive(Clone, Copy, Debug, PartialEq, Eq, Structural)]
pub enum Phase {
    /// Setup: the outcome of acquiring this resource.
    Acquiring(Resource),
    /// The poll for cancellation that opens an iteration.
    Polling,
    /// The frame of the iteration that began at `started_ms`.
    Grabbing { started_ms: u64 },
    /// The image that `plan` describes.
    Preprocessing { plan: PreprocessPlan, started_ms: u64 },
    /// The regions detected in the prepared image of a frame of shape
    /// `frame`.
    Detecting { frame: FrameShape, started_ms: u64 },
    /// The markers to be drawn, for this many detections.
    Annotating { detections: usize, started_ms: u64 },
    /// The frame to be shown, for this many detections.
    Presenting { detections: usize, started_ms: u64 },
    /// The report that closes an iteration.
    Reporting,
    /// The release of the resource acquired last.
    Releasing,
    /// Nothing: the run is over.
    Exited,
}

/// The regions to mark on a frame of shape `frame` after a detection ended
/// with `outcome`: the accepted regions, mapped back to the original frame by
/// the inverse multiplier of `scale`, as far as their markers may touch the
/// frame.
pub open spec fn markers_for(outcome: DetectionOutcome, frame: FrameShape, scale: ScaleFactor) -> Seq<
    Region,
> {
    markers(
        original_regions(outcome.accepted(), scale.inverse()),
        frame,
        MarkerStyle::red_outline().thickness as int,
    )
}

/// The state of the control loop.
#[derive(Clone, Copy, Debug, PartialEq, Eq)]
pub struct MainLoop {
    pub status: Status,
    pub phase: Phase,
    pub held: Held,
    pub scale: ScaleFactor,
}

impl MainLoop {
    /// The phase, the status and what is held agree: setup holds what was
    /// acquired so far, an iteration runs with everything held, and a
    /// stopped loop is releasing or has left.
    pub open spec fn wf(self) -> bool {
        &&& self.scale.wf()
        &&& match self.phase {
            Phase::Acquiring(resource) => self.status == Status::Running && self.held
                == Held::before(resource),
            Phase::Releasing => self.status != Status::Running && self.held != Held::Nothing,
            Phase::Exited => self.status != Status::Running && self.held == Held::Nothing,
            _ => self.status == Status::Running && self.held == Held::All,
        }
    }

    /// The loop is inside an iteration or about to open one.
    pub open spec fn iterating(self) -> bool {
        match self.phase {
            Phase::Acquiring(_) | Phase::Releasing | Phase::Exited => false,
            _ => true,
        }
    }

    /// The state at the start of a run, before anything is acquired.
    pub open spec fn initial(scale: ScaleFactor) -> MainLoop {
        MainLoop {
            status: Status::Running,
            phase: Phase::Acquiring(Resource::Detector),
            held: Held::Nothing,
            scale,
        }
    }

    /// The loop in another phase.
    pub open spec fn in_phase(self, phase: Phase) -> MainLoop {
        MainLoop { phase, ..self }
    }

    /// The loop at the poll that opens the next iteration.
    pub open spec fn next_iteration(self) -> (MainLoop, ActionView) {
        (self.in_phase(Phase::Polling), ActionView::PollCancel { timeout_ms: POLL_TIMEOUT_MS })
    }

    /// The loop after what it holds was found to be `held`: with something
    /// held it releases the newest, with nothing held it leaves.
    pub open spec fn winding_down(self, held: Held) -> (MainLoop, ActionView) {
        match held.newest() {
            Some(resource) => (
                MainLoop { phase: Phase::Releasing, held, ..self },
                ActionView::Release(resource),
            ),
            None => (
                MainLoop { phase: Phase::Exited, held, ..self },
                ActionView::Exit { code: self.status.exit_code() },
            ),
        }
    }

    /// The loop after it stopped with `status`, holding `held`.
    pub open spec fn stopped(self, status: Status, held: Held) -> (MainLoop, ActionView) {
        MainLoop { status, ..self }.winding_down(held)
    }

    /// The loop after `resource` was acquired and found ready.
    pub open spec fn acquired(self, resource: Resource) -> (MainLoop, ActionView) {
        let holding = MainLoop { held: Held::with(resource), ..self };
        match resource.next() {
            Some(next) => (holding.in_phase(Phase::Acquiring(next)), ActionView::Acquire(next)),
            None => holding.next_iteration(),
        }
    }

    /// The loop after a frame was grabbed, or was not, in the iteration that
    /// began at `started_ms`.
    pub open spec fn grabbed(self, outcome: GrabOutcome, started_ms: u64) -> (MainLoop, ActionView) {
        match outcome.shape() {
            Some(frame) => match PreprocessPlan::planned(frame, self.scale) {
                Ok(plan) => (
                    self.in_phase(Phase::Preprocessing { plan, started_ms }),
                    ActionView::Preprocess(plan),
                ),
                Err(_) => self.next_iteration(),
            },
            None => self.next_iteration(),
        }
    }

    /// The loop after detection on the image of a frame of shape `frame`
    /// ended.
    pub open spec fn detected(self, outcome: DetectionOutcome, frame: FrameShape, started_ms: u64) -> (
        MainLoop,
        ActionView,
    ) {
        let detections = outcome.accepted().len() as usize;
        let marked = markers_for(outcome, frame, self.scale);
        if marked.len() == 0 {
            (self.in_phase(Phase::Presenting { detections, started_ms }), ActionView::Present)
        } else {
            (
                self.in_phase(Phase::Annotating { detections, started_ms }),
                ActionView::Annotate { markers: marked, style: MarkerStyle::red_outline() },
            )
        }
    }

    /// The state after `event`, and the action asked for.
    ///
    /// An event that does not answer what the loop is waiting for counts as
    /// a failure of what it was waiting for: during setup it is a fault,
    /// during an iteration it ends the iteration.
    pub open spec fn react(self, event: Event) -> (MainLoop, ActionView) {
        match self.phase {
            Phase::Acquiring(pending) => match event {
                Event::Acquired { resource, outcome } if resource == pending => match outcome {
                    AcquireOutcome::Ready => self.acquired(pending),
                    AcquireOutcome::NotReady => self.stopped(Status::Faulted, Held::with(pending)),
                    AcquireOutcome::Failed => self.stopped(Status::Faulted, self.held),
                },
                _ => self.stopped(Status::Faulted, self.held),
            },
            Phase::Polling => match event {
                Event::Polled { key, now_ms } => if key == Some(CANCEL_KEY) {
                    self.stopped(Status::Cancelled, self.held)
                } else {
                    (self.in_phase(Phase::Grabbing { started_ms: now_ms }), ActionView::GrabFrame)
                },
                _ => self.next_iteration(),
            },
            Phase::Grabbing { started_ms } => match event {
                Event::Grabbed(outcome) => self.grabbed(outcome, started_ms),
                _ => self.next_iteration(),
            },
            Phase::Preprocessing { plan, started_ms } => match event {
                Event::Preprocessed(outcome) if outcome.fulfils(plan) => (
                    self.in_phase(Phase::Detecting { frame: plan.source, started_ms }),
                    ActionView::Detect(DetectionConfig::fixed()),
                ),
                _ => self.next_iteration(),
            },
            Phase::Detecting { frame, started_ms } => match event {
                Event::Detected(outcome) => self.detected(outcome, frame, started_ms),
                _ => self.next_iteration(),
            },
            Phase::Annotating { detections, started_ms } => match event {
                Event::Annotated => (
                    self.in_phase(Phase::Presenting { detections, started_ms }),
                    ActionView::Present,
                ),
                _ => self.next_iteration(),
            },
            Phase::Presenting { detections, started_ms } => match event {
                Event::Presented { now_ms } => (
                    self.in_phase(Phase::Reporting),
                    ActionView::Report {
                        detections,
                        timing: PipelineTiming::between(started_ms, now_ms),
                    },
                ),
                _ => self.next_iteration(),
            },
            Phase::Reporting => self.next_iteration(),
            Phase::Releasing => self.winding_down(self.held.without_newest()),
            Phase::Exited => self.winding_down(Held::Nothing),
        }
    }

    /// Starts a run: nothing is held, and the first thing to do is to
    /// acquire the detector.
    pub fn start(scale: ScaleFactor) -> (started: (MainLoop, Action))
        ensures
            started.0 == MainLoop::initial(scale),
            started.0.wf(),
            started.1@ == ActionView::Acquire(Resource::Detector),
    {
        proof {
            use_type_invariant(&scale);
        }
        (
            MainLoop {
                status: Status::Running,
                phase: Phase::Acquiring(Resource::Detector),
                held: Held::Nothing,
                scale,
            },
            Action::Acquire(Resource::Detector),
        )
    }

    /// Takes in what happened and says what to do next.
    pub fn step(&mut self, event: Event) -> (action: Action)
        ensures
            (*final(self), action@) == old(self).react(event),
            old(self).wf() ==> final(self).wf(),
    {
        proof {
            if self.wf() {
                lemma_react_keeps_wf(*self, event);
            }
        }
        match self.phase {
            Phase::Acquiring(pending) => match event {
                Event::Acquired { resource, outcome } => {
                    if resource == pending {
                        match outcome {
                            AcquireOutcome::Ready => self.acquire(pending),
                            AcquireOutcome::NotReady => {
                                let held = Held::including(pending);
                                self.stop(Status::Faulted, held)
                            },
                            AcquireOutcome::Failed => {
                                let held = self.held;
                                self.stop(Status::Faulted, held)
                            },
                        }
                    } else {
                        let held = self.held;
                        self.stop(Status::Faulted, held)
                    }
                },
                _ => {
                    let held = self.held;
                    self.stop(Status::Faulted, held)
                },
            },
            Phase::Polling => match event {
                Event::Polled { key, now_ms } => {
                    let cancel = match key {
                        Some(code) => code == CANCEL_KEY,
                        None => false,
                    };
                    if cancel {
                        let held = self.held;
                        self.stop(Status::Cancelled, held)
                    } else {
                        self.phase = Phase::Grabbing { started_ms: now_ms };
                        Action::GrabFrame
                    }
                },
                _ => self.open_iteration(),
            },
            Phase::Grabbing { started_ms } => match event {
                Event::Grabbed(outcome) => self.grab(outcome, started_ms),
                _ => self.open_iteration(),
            },
            Phase::Preprocessing { plan, started_ms } => match event {
                Event::Preprocessed(outcome) => {
                    if outcome.meets(&plan) {
                        self.phase = Phase::Detecting { frame: plan.source, started_ms };
                        Action::Detect(DetectionConfig::standard())
                    } else {
                        self.open_iteration()
                    }
                },
                _ => self.open_iteration(),
            },
            Phase::Detecting { frame, started_ms } => match event {
                Event::Detected(outcome) => self.detect(outcome, frame, started_ms),
                _ => self.open_iteration(),
            },
            Phase::Annotating { detections, started_ms } => match event {
                Event::Annotated => {
                    self.phase = Phase::Presenting { detections, started_ms };
                    Action::Present
                },
                _ => self.open_iteration(),
            },
            Phase::Presenting { detections, started_ms } => match event {
                Event::Presented { now_ms } => {
                    self.phase = Phase::Reporting;
                    Action::Report { detections, timing: PipelineTiming::measure(started_ms, now_ms) }
                },
                _ => self.open_iteration(),
            },
            Phase::Reporting => self.open_iteration(),
            Phase::Releasing => {
                let held = self.held.released();
                self.wind_down(held)
            },
            Phase::Exited => self.wind_down(Held::Nothing),
        }
    }

    /// Whether the run is over: the loop has stopped and holds nothing.
    pub fn is_over(&self) -> (over: bool)
        ensures
            over == (self.phase == Phase::Exited),
    {
        match self.phase {
            Phase::Exited => true,
            _ => false,
        }
    }

    fn open_iteration(&mut self) -> (action: Action)
        ensures
            (*final(self), action@) == old(self).next_iteration(),
    {
        self.phase = Phase::Polling;
        Action::PollCancel { timeout_ms: POLL_TIMEOUT_MS }
    }

    fn wind_down(&mut self, held: Held) -> (action: Action)
        ensures
            (*final(self), action@) == old(self).winding_down(held),
    {
        self.held = held;
        match held.release_next() {
            Some(resource) => {
                self.phase = Phase::Releasing;
                Action::Release(resource)
            },
            None => {
                self.phase = Phase::Exited;
                Action::Exit { code: self.status.code() }
            },
        }
    }

    fn stop(&mut self, status: Status, held: Held) -> (action: Action)
        ensures
            (*final(self), action@) == old(self).stopped(status, held),
    {
        self.status = status;
        self.wind_down(held)
    }

    fn acquire(&mut self, resource: Resource) -> (action: Action)
        ensures
            (*final(self), action@) == old(self).acquired(resource),
    {
        self.held = Held::including(resource);
        match resource {
            Resource::Detector => {
                self.phase = Phase::Acquiring(Resource::FrameSource);
                Action::Acquire(Resource::FrameSource)
            },
            Resource::FrameSource => {
                self.phase = Phase::Acquiring(Resource::DisplaySink);
                Action::Acquire(Resource::DisplaySink)
            },
            Resource::DisplaySink => self.open_iteration(),
        }
    }

    fn grab(&mut self, outcome: GrabOutcome, started_ms: u64) -> (action: Action)
        ensures
            (*final(self), action@) == old(self).grabbed(outcome, started_ms),
    {
        match outcome.frame_shape() {
            Some(frame) => match PreprocessPlan::plan(frame, &self.scale) {
                Ok(plan) => {
                    self.phase = Phase::Preprocessing { plan, started_ms };
                    Action::Preprocess(plan)
                },
                Err(_) => self.open_iteration(),
            },
            None => self.open_iteration(),
        }
    }

    fn detect(&mut self, outcome: DetectionOutcome, frame: FrameShape, started_ms: u64) -> (action:
        Action)
        ensures
            (*final(self), action@) == old(self).detected(outcome, frame, started_ms),
    {
        let regions = outcome.into_regions();
        let detections = regions.len();
        let style = MarkerStyle::standard();
        let mapped = to_original_regions(&regions, self.scale.inverse_multiplier());
        let marked = visible_markers(&mapped, &frame, &style);
        if marked.len() == 0 {
            self.phase = Phase::Presenting { detections, started_ms };
            Action::Present
        } else {
            self.phase = Phase::Annotating { detections, started_ms };
            Action::Annotate { markers: marked, style }
        }
    }
}

/// A step keeps the phase, the status and what is held in agreement, and
/// never changes the factor.
pub proof fn lemma_react_keeps_wf(state: MainLoop, event: Event)
    requires
        state.wf(),
    ensures
        state.react(event).0.wf(),
        state.react(event).0.scale == state.scale,
{
}

} // verus!
