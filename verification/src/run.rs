//! What holds of every step and every run of the control loop.

use vstd::prelude::*;

use crate::annotate::MarkerStyle;
use crate::detect::DetectionOutcome;
use crate::frame::{lemma_chain_reaches_output, PreprocessError, PreprocessPlan};
use crate::main_loop::{lemma_react_keeps_wf, markers_for, MainLoop, Phase};
use crate::protocol::{AcquireOutcome, ActionView, Event, GrabOutcome, Held, PipelineTiming,
    Resource, Status, CANCEL_KEY, EXIT_CANCELLED, EXIT_FAULTED, POLL_TIMEOUT_MS};
use crate::region::Region;

verus! {

/// Where the loop stands after `events`, one after the other, and the
/// actions it asked for on the way.
pub open spec fn run(state: MainLoop, events: Seq<Event>) -> (MainLoop, Seq<ActionView>)
    decreases events.len(),
{
    if events.len() == 0 {
        (state, Seq::empty())
    } else {
        let (before, actions) = run(state, events.drop_last());
        let (after, action) = before.react(events.last());
        (after, actions.push(action))
    }
}

/// A run keeps the phase, the status and what is held in agreement, asks for
/// one action per event, and never changes the factor.
pub proof fn lemma_run_keeps_wf(state: MainLoop, events: Seq<Event>)
    requires
        state.wf(),
    ensures
        run(state, events).0.wf(),
        run(state, events).0.scale == state.scale,
        run(state, events).1.len() == events.len(),
    decreases events.len(),
{
    if events.len() > 0 {
        lemma_run_keeps_wf(state, events.drop_last());
        lemma_react_keeps_wf(run(state, events.drop_last()).0, events.last());
    }
}

/// The resource released first is the one acquired last, and what is left
/// after its release is what was held before it was acquired.
pub proof fn lemma_newest_is_acquired_last(held: Held)
    ensures
        held.newest() == if held.resources().len() == 0 {
            None
        } else {
            Some(held.resources().last())
        },
        held.without_newest().resources() == if held.resources().len() == 0 {
            held.resources()
        } else {
            held.resources().drop_last()
        },
        forall|resource: Resource|
            Held::with(resource).resources() == Held::before(resource).resources().push(resource),
{
    assert forall|resource: Resource|
        Held::with(resource).resources() == Held::before(resource).resources().push(
            resource,
        ) by {
        assert(Held::with(resource).resources() =~= Held::before(resource).resources().push(
            resource,
        ));
    }
    assert(held.without_newest().resources() =~= if held.resources().len() == 0 {
        held.resources()
    } else {
        held.resources().drop_last()
    });
}

/// Releasing goes through what is held from its end: the release after
/// `count` others takes the resource that is `count` places from the end, and
/// once as many were released as were held, nothing is left.
pub proof fn lemma_releases_run_backwards(held: Held, count: nat)
    ensures
        held.after_releases(count).resources() == held.resources().take(
            if count <= held.resources().len() {
                held.resources().len() - count
            } else {
                0
            },
        ),
        held.after_releases(count).newest() == if count < held.resources().len() {
            Some(held.resources()[held.resources().len() - 1 - count])
        } else {
            None
        },
    decreases count,
{
    let all = held.resources();
    if count == 0 {
        assert(all.take(all.len() as int) =~= all);
        lemma_newest_is_acquired_last(held);
    } else {
        let before = held.after_releases((count - 1) as nat);
        lemma_releases_run_backwards(held, (count - 1) as nat);
        lemma_newest_is_acquired_last(before);
        lemma_newest_is_acquired_last(before.without_newest());
        if count <= all.len() {
            assert(all.take(all.len() - count + 1).drop_last() =~= all.take(all.len() - count));
        } else {
            assert(all.take(0) =~= Seq::<Resource>::empty());
        }
    }
}

/// Once stopped, the loop stays stopped, with the status it stopped with. All
/// it ever asks for is the release of what it still holds, newest first, and
/// then to leave.
pub proof fn lemma_stopped_loop_stays_stopped(state: MainLoop, event: Event)
    requires
        state.wf(),
        state.status != Status::Running,
    ensures
        ({
            let (after, action) = state.react(event);
            &&& after.status == state.status
            &&& !after.iterating()
            &&& after.held == state.held.without_newest()
            &&& action == match after.held.newest() {
                Some(resource) => ActionView::Release(resource),
                None => ActionView::Exit { code: state.status.exit_code() },
            }
        }),
{
}

/// After the loop has stopped, what happens outside no longer matters: it
/// asks for the release of what it holds, newest first and each resource
/// once, then to leave, and after that for nothing but to leave.
pub proof fn lemma_stopped_run_releases_newest_first(state: MainLoop, events: Seq<Event>)
    requires
        state.wf(),
        state.status != Status::Running,
    ensures
        run(state, events).0.status == state.status,
        run(state, events).0.held == state.held.after_releases(events.len()),
        forall|i: int|
            0 <= i < events.len() ==> #[trigger] run(state, events).1[i] == match state.held.after_releases(
                (i + 1) as nat,
            ).newest() {
                Some(resource) => ActionView::Release(resource),
                None => ActionView::Exit { code: state.status.exit_code() },
            },
    decreases events.len(),
{
    lemma_run_keeps_wf(state, events);
    if events.len() > 0 {
        let earlier = events.drop_last();
        lemma_stopped_run_releases_newest_first(state, earlier);
        lemma_run_keeps_wf(state, earlier);
        let before = run(state, earlier).0;
        lemma_stopped_loop_stays_stopped(before, events.last());
        assert forall|i: int| 0 <= i < events.len() implies #[trigger] run(state, events).1[i]
            == match state.held.after_releases((i + 1) as nat).newest() {
            Some(resource) => ActionView::Release(resource),
            None => ActionView::Exit { code: state.status.exit_code() },
        } by {
            if i < earlier.len() {
                assert(run(state, events).1[i] == run(state, earlier).1[i]);
            }
        }
    }
}

/// A fault comes from setup and from nowhere else: a loop that has begun
/// to iterate never faults, whatever happens.
pub proof fn lemma_faults_come_from_setup(state: MainLoop, event: Event)
    requires
        state.wf(),
        state.status == Status::Running,
    ensures
        state.react(event).0.status == Status::Faulted ==> state.phase is Acquiring,
        state.iterating() ==> state.react(event).0.status != Status::Faulted,
        state.react(event).0.status == Status::Faulted <==> state.phase is Acquiring && event != (
        Event::Acquired { resource: state.phase->Acquiring_0, outcome: AcquireOutcome::Ready }),
{
}

/// Cancellation is seen at the poll that opens an iteration, when the
/// cancel key was pressed, and at no other point: work under way always
/// runs to the end of its iteration.
pub proof fn lemma_cancellation_is_seen_at_the_poll(state: MainLoop, event: Event)
    requires
        state.wf(),
        state.status == Status::Running,
    ensures
        state.react(event).0.status == Status::Cancelled <==> state.phase == Phase::Polling
            && event.cancels(),
{
}

/// Setup acquires the detector, the frame source and the display sink in
/// that order, and the first iteration opens once all three are ready.
pub proof fn lemma_setup_acquires_in_order(state: MainLoop, resource: Resource)
    requires
        state.wf(),
        state.phase == Phase::Acquiring(resource),
    ensures
        ({
            let (after, action) = state.react(
                Event::Acquired { resource, outcome: AcquireOutcome::Ready },
            );
            &&& after.status == Status::Running
            &&& after.held == Held::with(resource)
            &&& match resource.next() {
                Some(next) => after.phase == Phase::Acquiring(next) && action
                    == ActionView::Acquire(next),
                None => after.phase == Phase::Polling && action == ActionView::PollCancel {
                    timeout_ms: POLL_TIMEOUT_MS,
                },
            }
        }),
{
}

/// A failed setup step stops the loop as faulted, and the loop goes on to
/// release exactly what it had acquired by then: the resources before the
/// one that failed, and the failed one too if it was opened.
pub proof fn lemma_setup_failure_faults(state: MainLoop, resource: Resource, outcome: AcquireOutcome)
    requires
        state.wf(),
        state.phase == Phase::Acquiring(resource),
        outcome != AcquireOutcome::Ready,
    ensures
        ({
            let (after, action) = state.react(Event::Acquired { resource, outcome });
            &&& after.status == Status::Faulted
            &&& after.held == if outcome == AcquireOutcome::NotReady {
                Held::with(resource)
            } else {
                Held::before(resource)
            }
            &&& action == match after.held.newest() {
                Some(newest) => ActionView::Release(newest),
                None => ActionView::Exit { code: EXIT_FAULTED },
            }
        }),
{
}

/// A grab that yields no frame ends the iteration there: the loop asks for
/// the next poll, and for no work on a frame.
pub proof fn lemma_missed_grab_skips_the_frame(state: MainLoop, outcome: GrabOutcome)
    requires
        state.wf(),
        state.phase is Grabbing,
        outcome == GrabOutcome::NoFrame || outcome == GrabOutcome::Fault,
    ensures
        state.react(Event::Grabbed(outcome)) == state.next_iteration(),
        state.react(Event::Grabbed(outcome)).0.phase == Phase::Polling,
        state.react(Event::Grabbed(outcome)).0.status == Status::Running,
        state.react(Event::Grabbed(outcome)).1 == (ActionView::PollCancel {
            timeout_ms: POLL_TIMEOUT_MS,
        }),
{
}

/// Detection is asked for only on an image of the planned shape: grayscale,
/// with the dimensions of the frame times the factor, rounded to whole
/// pixels. Any other outcome of the preparation ends the iteration.
pub proof fn lemma_detection_sees_the_planned_image(state: MainLoop, event: Event)
    requires
        state.wf(),
        state.phase is Preprocessing,
    ensures
        ({
            let plan = state.phase->Preprocessing_plan;
            let (after, action) = state.react(event);
            &&& action is Detect <==> event.delivers(plan)
            &&& !(action is Detect) ==> (after, action) == state.next_iteration()
            &&& action is Detect ==> after.phase == Phase::Detecting {
                frame: plan.source,
                started_ms: state.phase->Preprocessing_started_ms,
            }
        }),
{
}

/// A frame that is grabbed and can be prepared is planned for under the
/// loop's own factor: the image asked for has the frame's width and height
/// times the factor, each rounded to whole pixels.
pub proof fn lemma_grabbed_frame_is_planned(state: MainLoop, outcome: GrabOutcome)
    requires
        state.wf(),
        state.phase is Grabbing,
    ensures
        ({
            let (after, action) = state.react(Event::Grabbed(outcome));
            &&& action is Preprocess || (after, action) == state.next_iteration()
            &&& action matches ActionView::Preprocess(plan) ==> {
                &&& outcome.shape() == Some(plan.source)
                &&& PreprocessPlan::planned(plan.source, state.scale) == Ok::<
                    PreprocessPlan,
                    PreprocessError,
                >(plan)
                &&& plan.output.width == state.scale.scaled(plan.source.width as int)
                &&& plan.output.height == state.scale.scaled(plan.source.height as int)
            }
        }),
{
    match outcome.shape() {
        Some(frame) => {
            if PreprocessPlan::planned(frame, state.scale) is Ok {
                lemma_chain_reaches_output(frame, state.scale);
            }
        },
        None => {},
    }
}

/// A detection that yields no region, because none was found or because the
/// engine faulted, leaves the loop running: the frame is presented without
/// a marker, and zero detections are reported for it.
pub proof fn lemma_no_regions_still_presents(state: MainLoop, outcome: DetectionOutcome, now_ms: u64)
    requires
        state.wf(),
        state.phase is Detecting,
        outcome.accepted().len() == 0,
    ensures
        ({
            let started_ms = state.phase->Detecting_started_ms;
            let (after, action) = state.react(Event::Detected(outcome));
            &&& after.status == Status::Running
            &&& after.phase == Phase::Presenting { detections: 0, started_ms }
            &&& action == ActionView::Present
            &&& after.react(Event::Presented { now_ms }).1 == ActionView::Report {
                detections: 0,
                timing: PipelineTiming::between(started_ms, now_ms),
            }
        }),
{
    let frame = state.phase->Detecting_frame;
    assert(outcome.accepted() =~= Seq::<Region>::empty());
    assert(markers_for(outcome, frame, state.scale) =~= Seq::<Region>::empty());
}

/// Whatever a detection yields, the frame is presented: at once where there
/// is nothing to mark, after the markers are drawn where there is.
pub proof fn lemma_detected_frame_is_presented(state: MainLoop, outcome: DetectionOutcome)
    requires
        state.wf(),
        state.phase is Detecting,
    ensures
        ({
            let (after, action) = state.react(Event::Detected(outcome));
            let marked = markers_for(outcome, state.phase->Detecting_frame, state.scale);
            &&& after.status == Status::Running
            &&& marked.len() == 0 ==> action == ActionView::Present
            &&& marked.len() > 0 ==> {
                &&& action == ActionView::Annotate {
                    markers: marked,
                    style: MarkerStyle::red_outline(),
                }
                &&& after.react(Event::Annotated).1 == ActionView::Present
            }
        }),
{
}

/// A cancelled loop releases the display sink, then the frame source, then
/// the detector, each once, and leaves with the exit code of a clean end.
/// After that it asks for nothing but to leave.
pub proof fn lemma_cancelled_run_releases_everything(
    state: MainLoop,
    now_ms: u64,
    first: Event,
    second: Event,
    third: Event,
    later: Event,
)
    requires
        state.wf(),
        state.phase == Phase::Polling,
    ensures
        ({
            let (a, release_sink) = state.react(Event::Polled { key: Some(CANCEL_KEY), now_ms });
            let (b, release_source) = a.react(first);
            let (c, release_detector) = b.react(second);
            let (d, leave) = c.react(third);
            let (e, leave_again) = d.react(later);
            &&& release_sink == ActionView::Release(Resource::DisplaySink)
            &&& release_source == ActionView::Release(Resource::FrameSource)
            &&& release_detector == ActionView::Release(Resource::Detector)
            &&& leave == ActionView::Exit { code: EXIT_CANCELLED }
            &&& leave_again == leave
            &&& d.status == Status::Cancelled
            &&& d.held == Held::Nothing
            &&& d.phase == Phase::Exited
            &&& e == d
        }),
{
}

} // verus!
