//! The frame loop: drawing, queueing, recovering, and never stalling.
//!
//! Rendering a frame takes several calls into the GPU, each of which may fail, and
//! the compositor has to react to each outcome. The loop is therefore a state
//! machine: every call of [`crate::state::Kiosk::render`] and its kin says what to
//! do next, and the outcome is handed back to the method that waits for it.
//!
//! With no flip queued there is no vblank to drive the next render, so a dropped
//! frame owes a wake-up of its own. [`law_never_stalls`] states that the debt is
//! always paid: whenever the loop rests with something left to show, a flip or a
//! retry is on its way, or the compositor is about to exit.

use vstd::prelude::*;

use crate::pacing::{PacerState, RenderDecision};

verus! {

/// Consecutive dropped frames before a transient fault is treated as permanent.
///
/// At the retry interval this is about a second. Retrying forever would trade a
/// visible freeze for an invisible one: the screen would still be stuck, while the
/// retry loop wrote thousands of warnings a minute into a log that has no rotation.
/// Exiting lets a supervisor restart us.
pub const MAX_CONSECUTIVE_DROPS: u32 = 60;

/// How long to wait before retrying a dropped frame, in milliseconds.
///
/// Roughly one retrace at 60Hz. Exact timing does not matter: this only has to
/// break the stall.
pub const RETRY_INTERVAL_MS: u64 = 16;

/// What the frame loop waits for.
#[derive(Debug, Clone, Copy, PartialEq, Eq, Structural)]
pub enum FramePhase {
    /// Nothing: any event may come.
    Idle,
    /// The outcome of drawing a frame.
    Drawing,
    /// The outcome of queueing a drawn frame.
    Queueing,
    /// The outcome of arming the retry timer.
    Arming,
}

/// What came of drawing a frame.
#[derive(Debug, Clone, Copy, PartialEq, Eq, Structural)]
pub enum FrameOutcome {
    /// Drawing failed. Losing master mid-render is expected around VT switches, so
    /// this is a dropped frame, not a fatal error.
    Failed,
    /// There was nothing new to show.
    Empty,
    /// There is a frame to queue.
    Visible,
}

/// What to do next.
#[derive(Debug, Clone, Copy, PartialEq, Eq, Structural)]
pub enum FrameAction {
    /// Nothing.
    Wait,
    /// Draw the scene, then report to `frame_drawn`.
    Draw,
    /// Queue the drawn frame, then report to `frame_queued`.
    Queue,
    /// Arm the one-shot retry timer, then report to `retry_scheduled`.
    ArmRetry,
    /// Leave the event loop.
    Stop,
}

/// A step of the frame loop. Scan-out is recorded before clients are released, and
/// both before the action: a client is released by the output it was scanned out on,
/// so one with none recorded would get no callback at all.
#[derive(Debug, Clone, Copy, PartialEq, Eq, Structural)]
pub struct FrameStep {
    /// Record which output each surface was scanned out on.
    pub record_scanout: bool,
    /// Release clients to draw their next frame.
    pub release_clients: bool,
    pub action: FrameAction,
}

impl FrameStep {
    /// A step that does nothing but `action`.
    pub open spec fn just(action: FrameAction) -> FrameStep {
        FrameStep { record_scanout: false, release_clients: false, action }
    }

    /// A step that releases the clients and then does `action`.
    pub open spec fn releasing(action: FrameAction) -> FrameStep {
        FrameStep { record_scanout: false, release_clients: true, action }
    }

    /// A step that does nothing but `action`.
    pub fn only(action: FrameAction) -> (step: FrameStep)
        ensures
            step == FrameStep::just(action),
    {
        FrameStep { record_scanout: false, release_clients: false, action }
    }
}

/// A drop budget after one more outcome: a success restores it, a failure spends
/// one unit.
pub open spec fn budget_after(drops: nat, succeeded: bool) -> nat {
    if succeeded {
        0
    } else {
        drops + 1
    }
}

/// Is the drop budget spent by that outcome?
pub open spec fn budget_spent(drops: nat, succeeded: bool) -> bool {
    !succeeded && drops + 1 >= MAX_CONSECUTIVE_DROPS
}

/// The exit status once `code` has been asked for: the first status wins.
pub open spec fn latched(current: Option<i32>, code: i32) -> Option<i32> {
    match current {
        Some(first) => Some(first),
        None => Some(code),
    }
}

/// Everything the frame loop knows.
pub struct FrameState {
    pub pacer: PacerState,
    pub phase: FramePhase,
    /// Is a retry timer pending?
    pub retry_armed: bool,
    /// Frames dropped in a row.
    pub drops: nat,
    /// Flips in a row whose submission could not be recorded.
    pub submit_failures: nat,
    /// The status to exit with, once the compositor is to exit.
    pub exit_code: Option<i32>,
}

impl FrameState {
    /// The state in which a compositor starts, owing its first frame.
    pub open spec fn initial() -> FrameState {
        FrameState {
            pacer: PacerState::initial(),
            phase: FramePhase::Idle,
            retry_armed: false,
            drops: 0,
            submit_failures: 0,
            exit_code: None,
        }
    }

    /// A frame is being drawn or queued only in an active session, with no flip in
    /// flight and its damage accounted for.
    pub open spec fn well_formed(self) -> bool {
        self.phase == FramePhase::Drawing || self.phase == FramePhase::Queueing ==> {
            &&& self.pacer.active
            &&& !self.pacer.damaged
            &&& !self.pacer.pending_flip
        }
    }

    /// Is there something to show and nothing that will ever show it?
    pub open spec fn stalled(self) -> bool {
        &&& self.phase == FramePhase::Idle
        &&& self.pacer.active
        &&& self.pacer.damaged
        &&& !self.pacer.pending_flip
        &&& !self.retry_armed
        &&& self.exit_code is None
    }

    /// After a request to exit with `code`.
    pub open spec fn exiting(self, code: i32) -> FrameState {
        FrameState { exit_code: latched(self.exit_code, code), ..self }
    }

    /// After `render`: a frame is drawn if the pacer allows it.
    pub open spec fn rendering(self) -> (FrameState, FrameStep) {
        if self.pacer.decision() == RenderDecision::Render {
            (
                FrameState {
                    pacer: PacerState { damaged: false, ..self.pacer },
                    phase: FramePhase::Drawing,
                    ..self
                },
                FrameStep::just(FrameAction::Draw),
            )
        } else {
            (self, FrameStep::just(FrameAction::Wait))
        }
    }

    /// After content changed: the screen is stale and a frame is due.
    pub open spec fn refreshing(self) -> (FrameState, FrameStep) {
        FrameState { pacer: PacerState { damaged: true, ..self.pacer }, ..self }.rendering()
    }

    /// After a frame was dropped: it is still owed, clients are released, and a retry
    /// is scheduled unless one is pending already or the budget is spent.
    pub open spec fn recovering(self) -> (FrameState, FrameStep) {
        let owing = FrameState {
            pacer: PacerState { damaged: true, pending_flip: false, ..self.pacer },
            phase: FramePhase::Idle,
            drops: budget_after(self.drops, false),
            ..self
        };
        if budget_spent(self.drops, false) {
            (owing.exiting(1), FrameStep::releasing(FrameAction::Stop))
        } else if self.retry_armed {
            (owing, FrameStep::releasing(FrameAction::Wait))
        } else {
            (
                FrameState { phase: FramePhase::Arming, ..owing },
                FrameStep::releasing(FrameAction::ArmRetry),
            )
        }
    }

    /// After a frame was drawn, with that outcome.
    pub open spec fn drawn(self, outcome: FrameOutcome) -> (FrameState, FrameStep) {
        match outcome {
            FrameOutcome::Failed => self.recovering(),
            FrameOutcome::Empty => (
                FrameState { phase: FramePhase::Idle, drops: 0, ..self },
                FrameStep {
                    record_scanout: true,
                    release_clients: true,
                    action: FrameAction::Wait,
                },
            ),
            FrameOutcome::Visible => (
                FrameState { phase: FramePhase::Queueing, ..self },
                FrameStep {
                    record_scanout: true,
                    release_clients: false,
                    action: FrameAction::Queue,
                },
            ),
        }
    }

    /// After a frame was queued, or could not be.
    pub open spec fn queued(self, succeeded: bool) -> (FrameState, FrameStep) {
        if succeeded {
            (
                FrameState {
                    pacer: PacerState { pending_flip: true, ..self.pacer },
                    phase: FramePhase::Idle,
                    drops: 0,
                    ..self
                },
                FrameStep::just(FrameAction::Wait),
            )
        } else {
            self.recovering()
        }
    }

    /// After the retry timer was armed, or could not be.
    pub open spec fn scheduled(self, succeeded: bool) -> (FrameState, FrameStep) {
        let idle = FrameState { phase: FramePhase::Idle, ..self };
        if succeeded {
            (
                FrameState { retry_armed: true, ..idle },
                FrameStep::just(FrameAction::Wait),
            )
        } else {
            (idle.exiting(1), FrameStep::just(FrameAction::Stop))
        }
    }

    /// After the retry timer fired.
    pub open spec fn retrying(self) -> (FrameState, FrameStep) {
        FrameState { retry_armed: false, ..self }.rendering()
    }

    /// After a vblank, where `submitted` says whether the flip could be recorded as
    /// submitted.
    pub open spec fn flipped(self, submitted: bool) -> (FrameState, FrameStep) {
        let failures = budget_after(self.submit_failures, submitted);
        let done = FrameState {
            pacer: PacerState {
                damaged: self.pacer.damaged || !submitted,
                pending_flip: false,
                ..self.pacer
            },
            submit_failures: failures,
            ..self
        };
        if budget_spent(self.submit_failures, submitted) {
            (done.exiting(1), FrameStep::just(FrameAction::Stop))
        } else {
            let next = done.rendering();
            (next.0, FrameStep { release_clients: true, ..next.1 })
        }
    }

    /// After the session was paused.
    pub open spec fn paused(self) -> FrameState {
        FrameState { pacer: PacerState { active: false, ..self.pacer }, ..self }
    }

    /// After the session was activated, where `resumed` says whether the display could
    /// be taken back. Frames dropped while it was being revoked are no evidence of a
    /// broken display, so both budgets are restored.
    pub open spec fn activated(self, resumed: bool) -> (FrameState, FrameStep) {
        let awake = FrameState {
            pacer: PacerState { active: true, damaged: true, pending_flip: false },
            ..self
        };
        if resumed {
            FrameState { drops: 0, submit_failures: 0, ..awake }.rendering()
        } else {
            (awake.exiting(1), FrameStep::just(FrameAction::Stop))
        }
    }
}

/// One thing that happens to the frame loop.
pub enum FrameEvent {
    /// Content changed: a commit, a destroyed window or popup, a moved pointer, a new
    /// cursor image, a raised window.
    Changed,
    /// A frame was drawn, with that outcome.
    Drawn(FrameOutcome),
    /// A frame was queued, or could not be.
    Queued(bool),
    /// The retry timer was armed, or could not be.
    Scheduled(bool),
    /// The retry timer fired.
    RetryFired,
    /// A vblank came in, and the flip could be recorded as submitted or not.
    Flipped(bool),
    /// The session was paused.
    Paused,
    /// The session was activated, and the display could be taken back or not.
    Activated(bool),
    /// Somebody asked to exit.
    Exit(i32),
}

/// May `event` happen in that phase? An outcome comes only when it is waited for,
/// and nothing else comes meanwhile.
pub open spec fn frame_event_legal(phase: FramePhase, event: FrameEvent) -> bool {
    match event {
        FrameEvent::Drawn(_) => phase == FramePhase::Drawing,
        FrameEvent::Queued(_) => phase == FramePhase::Queueing,
        FrameEvent::Scheduled(_) => phase == FramePhase::Arming,
        FrameEvent::Exit(_) => true,
        _ => phase == FramePhase::Idle,
    }
}

/// The state after `event`.
pub open spec fn frame_after(state: FrameState, event: FrameEvent) -> FrameState {
    match event {
        FrameEvent::Changed => state.refreshing().0,
        FrameEvent::Drawn(outcome) => state.drawn(outcome).0,
        FrameEvent::Queued(succeeded) => state.queued(succeeded).0,
        FrameEvent::Scheduled(succeeded) => state.scheduled(succeeded).0,
        FrameEvent::RetryFired => state.retrying().0,
        FrameEvent::Flipped(submitted) => state.flipped(submitted).0,
        FrameEvent::Paused => state.paused(),
        FrameEvent::Activated(resumed) => state.activated(resumed).0,
        FrameEvent::Exit(code) => state.exiting(code),
    }
}

/// The state after the first frame was begun and every event of `trace` happened.
pub open spec fn frame_run(trace: Seq<FrameEvent>) -> FrameState
    decreases trace.len(),
{
    if trace.len() == 0 {
        FrameState::initial().rendering().0
    } else {
        frame_after(frame_run(trace.drop_last()), trace.last())
    }
}

/// Was every event of `trace` legal when it happened?
pub open spec fn frame_trace_legal(trace: Seq<FrameEvent>) -> bool
    decreases trace.len(),
{
    trace.len() == 0 || {
        &&& frame_trace_legal(trace.drop_last())
        &&& frame_event_legal(frame_run(trace.drop_last()).phase, trace.last())
    }
}

/// The loop never stalls: after the first frame and any legal sequence of events,
/// whenever it rests with something to show in an active session, a flip is in flight
/// or a retry is armed or the compositor is to exit.
pub proof fn law_never_stalls(trace: Seq<FrameEvent>)
    requires
        frame_trace_legal(trace),
    ensures
        frame_run(trace).well_formed(),
        !frame_run(trace).stalled(),
    decreases trace.len(),
{
    if trace.len() > 0 {
        law_never_stalls(trace.drop_last());
    }
}

/// A display that fails continuously does not go on for ever: once sixty frames, or
/// sixty submissions, have failed in a row, the compositor is to exit.
pub proof fn law_broken_display_exits(trace: Seq<FrameEvent>)
    requires
        frame_trace_legal(trace),
    ensures
        frame_run(trace).drops >= 60 ==> frame_run(trace).exit_code is Some,
        frame_run(trace).submit_failures >= 60 ==> frame_run(trace).exit_code is Some,
    decreases trace.len(),
{
    if trace.len() > 0 {
        law_broken_display_exits(trace.drop_last());
    }
}

/// The first exit status wins: once one is recorded, no event changes it.
pub proof fn law_exit_status_is_final(state: FrameState, event: FrameEvent)
    requires
        state.exit_code is Some,
    ensures
        frame_after(state, event).exit_code == state.exit_code,
{
}

/// Nothing but a request to exit or a failure of the display ends the compositor: in
/// particular, no change of what is on the screen does, not even the last window
/// closing.
pub proof fn law_only_requests_and_failures_exit(state: FrameState, event: FrameEvent)
    requires
        frame_after(state, event).exit_code != state.exit_code,
    ensures
        match event {
            FrameEvent::Exit(_) => true,
            FrameEvent::Drawn(outcome) => outcome == FrameOutcome::Failed,
            FrameEvent::Queued(succeeded) => !succeeded,
            FrameEvent::Scheduled(succeeded) => !succeeded,
            FrameEvent::Flipped(submitted) => !submitted,
            FrameEvent::Activated(resumed) => !resumed,
            _ => false,
        },
{
}

/// Switching back to the VT repaints the screen at once, whatever was going on before.
pub proof fn law_activation_repaints(state: FrameState)
    ensures
        state.activated(true).1.action == FrameAction::Draw,
{
}

/// The number of failures at the end of `outcomes`, of which each is true for a
/// success.
pub open spec fn trailing_failures(outcomes: Seq<bool>) -> nat
    decreases outcomes.len(),
{
    if outcomes.len() == 0 || outcomes.last() {
        0
    } else {
        trailing_failures(outcomes.drop_last()) + 1
    }
}

/// The drop budget after `outcomes`, from a full one.
pub open spec fn budget_run(outcomes: Seq<bool>) -> nat
    decreases outcomes.len(),
{
    if outcomes.len() == 0 {
        0
    } else {
        budget_after(budget_run(outcomes.drop_last()), outcomes.last())
    }
}

/// The budget counts consecutive failures and nothing else: it is spent by an
/// outcome exactly if that is at least the sixtieth failure in a row.
pub proof fn law_budget_counts_consecutive_failures(outcomes: Seq<bool>)
    ensures
        budget_run(outcomes) == trailing_failures(outcomes),
        outcomes.len() > 0 ==> budget_spent(budget_run(outcomes.drop_last()), outcomes.last()) == (
        trailing_failures(outcomes) >= 60),
    decreases outcomes.len(),
{
    if outcomes.len() > 0 {
        law_budget_counts_consecutive_failures(outcomes.drop_last());
    }
}

/// The step that `event` asks for. A pause and a request to exit ask for none.
pub open spec fn frame_step(state: FrameState, event: FrameEvent) -> FrameStep {
    match event {
        FrameEvent::Changed => state.refreshing().1,
        FrameEvent::Drawn(outcome) => state.drawn(outcome).1,
        FrameEvent::Queued(succeeded) => state.queued(succeeded).1,
        FrameEvent::Scheduled(succeeded) => state.scheduled(succeeded).1,
        FrameEvent::RetryFired => state.retrying().1,
        FrameEvent::Flipped(submitted) => state.flipped(submitted).1,
        FrameEvent::Paused => FrameStep::just(FrameAction::Wait),
        FrameEvent::Activated(resumed) => state.activated(resumed).1,
        FrameEvent::Exit(_) => FrameStep::just(FrameAction::Wait),
    }
}

/// Did something in `trace` start that nothing after it stopped?
pub open spec fn outstanding(
    trace: Seq<FrameEvent>,
    starts: spec_fn(FrameEvent) -> bool,
    stops: spec_fn(FrameEvent) -> bool,
) -> bool {
    exists|i: int|
        {
            &&& 0 <= i < trace.len()
            &&& starts(#[trigger] trace[i])
            &&& forall|j: int| i < j < trace.len() ==> !stops(#[trigger] trace[j])
        }
}

/// The last event decides what is outstanding, unless it has nothing to do with it.
proof fn lemma_outstanding(
    trace: Seq<FrameEvent>,
    starts: spec_fn(FrameEvent) -> bool,
    stops: spec_fn(FrameEvent) -> bool,
)
    requires
        trace.len() > 0,
    ensures
        outstanding(trace, starts, stops) == (starts(trace.last()) || (!stops(trace.last())
            && outstanding(trace.drop_last(), starts, stops))),
{
    let n = trace.len() - 1;
    let before = trace.drop_last();
    if starts(trace.last()) {
        assert(starts(trace[n]));
    }
    if !stops(trace.last()) && outstanding(before, starts, stops) {
        let i = choose|i: int|
            {
                &&& 0 <= i < before.len()
                &&& starts(#[trigger] before[i])
                &&& forall|j: int| i < j < before.len() ==> !stops(#[trigger] before[j])
            };
        assert(starts(trace[i]));
        assert forall|j: int| i < j < trace.len() implies !stops(#[trigger] trace[j]) by {
            if j < n {
                assert(before[j] == trace[j]);
            }
        }
    }
    if outstanding(trace, starts, stops) && !starts(trace.last()) {
        let i = choose|i: int|
            {
                &&& 0 <= i < trace.len()
                &&& starts(#[trigger] trace[i])
                &&& forall|j: int| i < j < trace.len() ==> !stops(#[trigger] trace[j])
            };
        assert(i < n);
        assert(!stops(trace[n]));
        assert(starts(before[i]));
        assert forall|j: int| i < j < before.len() implies !stops(#[trigger] before[j]) by {
            assert(before[j] == trace[j]);
        }
    }
}

/// The retry flag is the timer: it is set exactly while a timer that was armed has not
/// fired.
pub proof fn law_retry_flag_is_the_timer(trace: Seq<FrameEvent>)
    requires
        frame_trace_legal(trace),
    ensures
        frame_run(trace).retry_armed <==> outstanding(
            trace,
            |event: FrameEvent| event == FrameEvent::Scheduled(true),
            |event: FrameEvent| event is RetryFired,
        ),
    decreases trace.len(),
{
    if trace.len() > 0 {
        law_retry_flag_is_the_timer(trace.drop_last());
        lemma_outstanding(
            trace,
            |event: FrameEvent| event == FrameEvent::Scheduled(true),
            |event: FrameEvent| event is RetryFired,
        );
    }
}

/// A dropped frame is always retried: whenever drawing or queueing fails and the budget
/// is not spent, the retry timer is armed, unless one that was armed has yet to fire.
pub proof fn law_a_dropped_frame_is_retried(trace: Seq<FrameEvent>, event: FrameEvent)
    requires
        frame_trace_legal(trace),
        frame_event_legal(frame_run(trace).phase, event),
        event == FrameEvent::Drawn(FrameOutcome::Failed) || event == FrameEvent::Queued(false),
        frame_run(trace).drops + 1 < 60,
    ensures
        frame_step(frame_run(trace), event).release_clients,
        frame_step(frame_run(trace), event).action == FrameAction::ArmRetry <==> !outstanding(
            trace,
            |event: FrameEvent| event == FrameEvent::Scheduled(true),
            |event: FrameEvent| event is RetryFired,
        ),
        frame_after(frame_run(trace), event).pacer.damaged,
        frame_after(frame_run(trace), event).exit_code == frame_run(trace).exit_code,
{
    law_retry_flag_is_the_timer(trace);
}

/// The flip flag is the flip: it is set exactly while a frame that was queued has neither
/// been reported by a vblank nor been made void by the session coming back.
pub proof fn law_flip_flag_is_the_flip(trace: Seq<FrameEvent>)
    requires
        frame_trace_legal(trace),
    ensures
        frame_run(trace).pacer.pending_flip <==> outstanding(
            trace,
            |event: FrameEvent| event == FrameEvent::Queued(true),
            |event: FrameEvent| event is Flipped || event is Activated,
        ),
    decreases trace.len(),
{
    if trace.len() > 0 {
        law_flip_flag_is_the_flip(trace.drop_last());
        law_never_stalls(trace.drop_last());
        lemma_outstanding(
            trace,
            |event: FrameEvent| event == FrameEvent::Queued(true),
            |event: FrameEvent| event is Flipped || event is Activated,
        );
    }
}

/// The session is in front exactly if it has come back from every pause.
pub proof fn law_the_session_is_in_front_unless_paused(trace: Seq<FrameEvent>)
    requires
        frame_trace_legal(trace),
    ensures
        frame_run(trace).pacer.active <==> !outstanding(
            trace,
            |event: FrameEvent| event is Paused,
            |event: FrameEvent| event is Activated,
        ),
    decreases trace.len(),
{
    if trace.len() > 0 {
        law_the_session_is_in_front_unless_paused(trace.drop_last());
        lemma_outstanding(
            trace,
            |event: FrameEvent| event is Paused,
            |event: FrameEvent| event is Activated,
        );
    }
}

/// Whether each frame of `trace` was shown: a frame counts once it was queued, came out
/// empty or failed, and the session coming back wipes the slate clean.
pub open spec fn frames_shown(trace: Seq<FrameEvent>) -> Seq<bool>
    decreases trace.len(),
{
    if trace.len() == 0 {
        Seq::empty()
    } else {
        let before = frames_shown(trace.drop_last());
        match trace.last() {
            FrameEvent::Drawn(FrameOutcome::Failed) => before.push(false),
            FrameEvent::Drawn(FrameOutcome::Empty) => before.push(true),
            FrameEvent::Queued(succeeded) => before.push(succeeded),
            FrameEvent::Activated(true) => before.push(true),
            _ => before,
        }
    }
}

/// Whether each flip of `trace` was submitted; the session coming back wipes the slate
/// clean.
pub open spec fn flips_submitted(trace: Seq<FrameEvent>) -> Seq<bool>
    decreases trace.len(),
{
    if trace.len() == 0 {
        Seq::empty()
    } else {
        let before = flips_submitted(trace.drop_last());
        match trace.last() {
            FrameEvent::Flipped(submitted) => before.push(submitted),
            FrameEvent::Activated(true) => before.push(true),
            _ => before,
        }
    }
}

/// The two budgets count failures in a row: frames that could not be shown, and flips
/// that could not be submitted, each by itself.
pub proof fn law_budgets_count_failures_in_a_row(trace: Seq<FrameEvent>)
    ensures
        frame_run(trace).drops == trailing_failures(frames_shown(trace)),
        frame_run(trace).submit_failures == trailing_failures(flips_submitted(trace)),
    decreases trace.len(),
{
    if trace.len() > 0 {
        law_budgets_count_failures_in_a_row(trace.drop_last());
        let shown = frames_shown(trace.drop_last());
        let submitted = flips_submitted(trace.drop_last());
        assert(shown.push(false).drop_last() == shown);
        assert(submitted.push(false).drop_last() == submitted);
    }
}

/// A frame is drawn when there is something to show and the screen is ours and free: at
/// once when content changes, and at the latest with the vblank or the retry that ends
/// the wait. Coming back to the VT always draws.
pub proof fn law_when_a_frame_is_drawn(state: FrameState, event: FrameEvent)
    ensures
        frame_step(state, event).action == FrameAction::Draw <==> match event {
            FrameEvent::Changed => state.pacer.active && !state.pacer.pending_flip,
            FrameEvent::RetryFired => state.pacer.active && state.pacer.damaged
                && !state.pacer.pending_flip,
            FrameEvent::Flipped(submitted) => state.pacer.active && if submitted {
                state.pacer.damaged
            } else {
                state.submit_failures + 1 < 60
            },
            FrameEvent::Activated(resumed) => resumed,
            _ => false,
        },
{
}

/// What is owed to the screen is never forgotten: only drawing a frame settles it, and a
/// change, a dropped frame, a lost flip and the session coming back each owe one.
pub proof fn law_what_the_screen_is_owed(state: FrameState, event: FrameEvent)
    ensures
        frame_step(state, event).action == FrameAction::Draw ==> !frame_after(
            state,
            event,
        ).pacer.damaged,
        frame_step(state, event).action != FrameAction::Draw ==> (frame_after(
            state,
            event,
        ).pacer.damaged <==> {
            ||| state.pacer.damaged
            ||| event is Changed
            ||| event == FrameEvent::Drawn(FrameOutcome::Failed)
            ||| event == FrameEvent::Queued(false)
            ||| event == FrameEvent::Flipped(false)
            ||| event is Activated
        }),
{
}

/// What is to be done next follows from how the last thing went.
pub proof fn law_what_follows_an_outcome(state: FrameState, event: FrameEvent)
    ensures
        ({
            let action = frame_step(state, event).action;
            let dropped = event == FrameEvent::Drawn(FrameOutcome::Failed) || event
                == FrameEvent::Queued(false);
            &&& action == FrameAction::Queue <==> event == FrameEvent::Drawn(FrameOutcome::Visible)
            &&& action == FrameAction::ArmRetry <==> dropped && state.drops + 1 < 60
                && !state.retry_armed
            &&& action == FrameAction::Stop <==> {
                ||| dropped && state.drops + 1 >= 60
                ||| event == FrameEvent::Flipped(false) && state.submit_failures + 1 >= 60
                ||| event == FrameEvent::Scheduled(false)
                ||| event == FrameEvent::Activated(false)
            }
        }),
{
}

/// The loop waits for the outcome of what it asked for, and for nothing else.
pub proof fn law_the_loop_waits_for_what_it_asked(state: FrameState, event: FrameEvent)
    requires
        frame_event_legal(state.phase, event),
    ensures
        ({
            let after = frame_after(state, event).phase;
            match frame_step(state, event).action {
                FrameAction::Draw => after == FramePhase::Drawing,
                FrameAction::Queue => after == FramePhase::Queueing,
                FrameAction::ArmRetry => after == FramePhase::Arming,
                FrameAction::Wait => after == FramePhase::Idle || (event is Exit && after
                    == state.phase),
                FrameAction::Stop => after == FramePhase::Idle,
            }
        }),
{
}

/// Clients are released by every vblank and wherever a frame came to nothing, so that
/// none waits for a callback for ever, and scan-out is recorded for every frame drawn.
pub proof fn law_who_is_released(state: FrameState, event: FrameEvent)
    ensures
        frame_step(state, event).release_clients <==> match event {
            FrameEvent::Drawn(outcome) => outcome != FrameOutcome::Visible,
            FrameEvent::Queued(succeeded) => !succeeded,
            FrameEvent::Flipped(submitted) => submitted || state.submit_failures + 1 < 60,
            _ => false,
        },
        frame_step(state, event).record_scanout <==> match event {
            FrameEvent::Drawn(outcome) => outcome != FrameOutcome::Failed,
            _ => false,
        },
{
}

/// The status that is recorded: what was asked for, or 1 for a display that cannot be
/// used any more, and nothing else ever.
pub proof fn law_which_status_is_recorded(state: FrameState, event: FrameEvent)
    requires
        state.exit_code is None,
    ensures
        frame_after(state, event).exit_code == (match event {
            FrameEvent::Exit(code) => Some(code),
            _ => if frame_step(state, event).action == FrameAction::Stop {
                Some(1i32)
            } else {
                None
            },
        }),
{
}

/// A compositor starts in front, with its first frame owed, and begins it at once.
pub proof fn law_the_first_frame_is_drawn()
    ensures
        FrameState::initial().rendering().1.action == FrameAction::Draw,
        FrameState::initial().pacer.active,
        FrameState::initial().exit_code is None,
        FrameState::initial().drops == 0,
        FrameState::initial().submit_failures == 0,
        !FrameState::initial().retry_armed,
{
}

/// An outcome comes exactly when it is waited for, a request to exit at any time, and
/// everything else exactly when nothing is waited for.
pub proof fn law_what_may_happen_when(phase: FramePhase, event: FrameEvent)
    ensures
        event is Drawn ==> (frame_event_legal(phase, event) <==> phase == FramePhase::Drawing),
        event is Queued ==> (frame_event_legal(phase, event) <==> phase == FramePhase::Queueing),
        event is Scheduled ==> (frame_event_legal(phase, event) <==> phase == FramePhase::Arming),
        event is Exit ==> frame_event_legal(phase, event),
        event is Changed || event is RetryFired || event is Flipped || event is Paused
            || event is Activated ==> (frame_event_legal(phase, event) <==> phase
            == FramePhase::Idle),
{
}

} // verus!
