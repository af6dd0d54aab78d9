//! The frame pacing state machine.
//!
//! Rendering is event driven rather than a fixed loop, and the rules are subtle
//! enough to be worth isolating from the GPU code that obeys them:
//!
//! - a client commit marks the frame damaged and asks for a render;
//! - a render submits a page flip only if something actually changed;
//! - the resulting vblank releases clients to draw again, and renders once more
//!   if new damage arrived while the flip was in flight.
//!
//! Two invariants matter, and both are easy to break by accident:
//!
//! 1. **Never queue two flips.** A second flip queued before the vblank of the
//!    first is a protocol error against the kernel. [`law_never_two_flips`]
//!    proves it of every legal sequence of events.
//! 2. **Never idle with damage outstanding.** Whenever the session is active,
//!    damage is set, and no flip is in flight, `poll` authorises a render
//!    ([`law_never_idle_with_damage`]). Damage is cleared at `begin_render`, so
//!    damage arriving mid-render re-arms the flag; a genuinely empty frame idles
//!    until the next `damage()`, because restoring the flag there would spin.
//!
//! Invariant 2 is about this type only: nothing here can guarantee that somebody
//! *calls* `poll` again. The caller owes a wake-up on every path that does not
//! queue a flip; [`crate::frames`] keeps that promise.

use vstd::prelude::*;

verus! {

/// Whether a render should proceed, and why not when it should not.
#[derive(Debug, Clone, Copy, PartialEq, Eq, Structural)]
pub enum RenderDecision {
    /// Render and attempt to submit.
    Render,
    /// The session is paused; another VT owns the screen.
    Inactive,
    /// Nothing has changed since the last submitted frame.
    Clean,
    /// A page flip is already in flight.
    AwaitingFlip,
}

/// What a [`FramePacer`] knows.
pub struct PacerState {
    /// False while the session is paused (another VT is in front).
    pub active: bool,
    /// Something has changed since the last submitted frame.
    pub damaged: bool,
    /// A page flip is in flight; the next render waits for its vblank.
    pub pending_flip: bool,
}

impl PacerState {
    /// The state in which a compositor starts: active and owing its first frame.
    pub open spec fn initial() -> PacerState {
        PacerState { active: true, damaged: true, pending_flip: false }
    }

    /// The decision this state calls for. A pause outranks a flip in flight, which
    /// outranks cleanliness.
    pub open spec fn decision(self) -> RenderDecision {
        if !self.active {
            RenderDecision::Inactive
        } else if self.pending_flip {
            RenderDecision::AwaitingFlip
        } else if !self.damaged {
            RenderDecision::Clean
        } else {
            RenderDecision::Render
        }
    }
}

/// Decides when to render and when to wait.
#[derive(Debug, Clone, Copy, PartialEq, Eq)]
pub struct FramePacer {
    active: bool,
    damaged: bool,
    pending_flip: bool,
}

impl View for FramePacer {
    type V = PacerState;

    closed spec fn view(&self) -> PacerState {
        PacerState {
            active: self.active,
            damaged: self.damaged,
            pending_flip: self.pending_flip,
        }
    }
}

impl FramePacer {
    /// A pacer that starts active and damaged, so the compositor paints one frame
    /// immediately rather than leaving whatever the previous owner of the
    /// framebuffer put on screen.
    pub fn new() -> (pacer: Self)
        ensures
            pacer@ == PacerState::initial(),
    {
        FramePacer { active: true, damaged: true, pending_flip: false }
    }

    /// Is the session in front?
    pub fn is_active(&self) -> (active: bool)
        ensures
            active == self@.active,
    {
        self.active
    }

    /// Has anything changed since the last submitted frame?
    pub fn is_damaged(&self) -> (damaged: bool)
        ensures
            damaged == self@.damaged,
    {
        self.damaged
    }

    /// Is a page flip in flight?
    pub fn has_pending_flip(&self) -> (pending: bool)
        ensures
            pending == self@.pending_flip,
    {
        self.pending_flip
    }

    /// Record that the screen no longer matches what clients have drawn.
    pub fn damage(&mut self)
        ensures
            final(self)@ == (PacerState { damaged: true, ..old(self)@ }),
    {
        self.damaged = true;
    }

    /// Should a render happen now?
    pub fn poll(&self) -> (decision: RenderDecision)
        ensures
            decision == self@.decision(),
    {
        if !self.active {
            RenderDecision::Inactive
        } else if self.pending_flip {
            // Checked before `damaged`: a flip in flight is the stronger reason
            // to wait, and reporting `Clean` here would be misleading.
            RenderDecision::AwaitingFlip
        } else if !self.damaged {
            RenderDecision::Clean
        } else {
            RenderDecision::Render
        }
    }

    /// Called immediately before rendering, once [`Self::poll`] has allowed it.
    ///
    /// Clears the damage flag up front so that damage arriving *during* the
    /// render is not lost: the flag is set again by whoever delivers it, and the
    /// next vblank will pick it up.
    pub fn begin_render(&mut self)
        requires
            old(self)@.decision() == RenderDecision::Render,
        ensures
            final(self)@ == (PacerState { damaged: false, ..old(self)@ }),
    {
        self.damaged = false;
    }

    /// A frame was rendered and produced visible changes, so a flip is queued.
    pub fn frame_queued(&mut self)
        requires
            !old(self)@.pending_flip,
        ensures
            final(self)@ == (PacerState { pending_flip: true, ..old(self)@ }),
    {
        self.pending_flip = true;
    }

    /// Rendering or queueing failed. The frame is still owed, so restore damage
    /// and clear any flip we thought we had.
    pub fn frame_failed(&mut self)
        ensures
            final(self)@ == (PacerState { damaged: true, pending_flip: false, ..old(self)@ }),
    {
        self.damaged = true;
        self.pending_flip = false;
    }

    /// A queued flip completed.
    pub fn flip_completed(&mut self)
        ensures
            final(self)@ == (PacerState { pending_flip: false, ..old(self)@ }),
    {
        self.pending_flip = false;
    }

    /// The session was paused: another VT took the screen.
    ///
    /// A flip in flight stays recorded, because the kernel may still own it.
    pub fn pause(&mut self)
        ensures
            final(self)@ == (PacerState { active: false, ..old(self)@ }),
    {
        self.active = false;
    }

    /// The session was resumed.
    ///
    /// Everything must be redrawn because the previous owner reprogrammed the
    /// CRTC, and any flip queued before the switch will never report a vblank —
    /// so waiting for it would hang the compositor forever.
    pub fn resume(&mut self)
        ensures
            final(self)@ == (PacerState { active: true, damaged: true, pending_flip: false }),
    {
        self.active = true;
        self.damaged = true;
        self.pending_flip = false;
    }
}

impl Default for FramePacer {
    fn default() -> (pacer: Self)
        ensures
            pacer@ == PacerState::initial(),
    {
        FramePacer::new()
    }
}

/// One thing that happens to a pacer.
pub enum PacerEvent {
    /// A client committed new content.
    Damage,
    /// A render began.
    Render,
    /// The begun render was queued as a page flip.
    Queued,
    /// The begun render came out empty. It queues no flip and leaves damage alone.
    Empty,
    /// The begun render, or queueing it, failed.
    Failed,
    /// A vblank arrived.
    Flip,
    /// The session was paused.
    Pause,
    /// The session was resumed.
    Resume,
}

/// May `event` happen in state `pacer`, where `rendering` says that a render has
/// begun and has no outcome yet? A render must be authorised, and an outcome only
/// follows a begun render.
pub open spec fn pacer_event_legal(pacer: PacerState, rendering: bool, event: PacerEvent) -> bool {
    match event {
        PacerEvent::Render => !rendering && pacer.decision() == RenderDecision::Render,
        PacerEvent::Queued | PacerEvent::Empty | PacerEvent::Failed => rendering,
        _ => true,
    }
}

/// The state after `event`, and whether a render is then under way.
pub open spec fn pacer_after(pacer: PacerState, rendering: bool, event: PacerEvent) -> (
    PacerState,
    bool,
) {
    match event {
        PacerEvent::Damage => (PacerState { damaged: true, ..pacer }, rendering),
        PacerEvent::Render => (PacerState { damaged: false, ..pacer }, true),
        PacerEvent::Queued => (PacerState { pending_flip: true, ..pacer }, false),
        PacerEvent::Empty => (pacer, false),
        PacerEvent::Failed => (
            PacerState { damaged: true, pending_flip: false, ..pacer },
            false,
        ),
        PacerEvent::Flip => (PacerState { pending_flip: false, ..pacer }, rendering),
        PacerEvent::Pause => (PacerState { active: false, ..pacer }, rendering),
        PacerEvent::Resume => (
            PacerState { active: true, damaged: true, pending_flip: false },
            rendering,
        ),
    }
}

/// The state after every event of `trace`, from the initial state.
pub open spec fn pacer_run(trace: Seq<PacerEvent>) -> (PacerState, bool)
    decreases trace.len(),
{
    if trace.len() == 0 {
        (PacerState::initial(), false)
    } else {
        let before = pacer_run(trace.drop_last());
        pacer_after(before.0, before.1, trace.last())
    }
}

/// Was every event of `trace` legal when it happened?
pub open spec fn pacer_trace_legal(trace: Seq<PacerEvent>) -> bool
    decreases trace.len(),
{
    trace.len() == 0 || {
        let before = pacer_run(trace.drop_last());
        &&& pacer_trace_legal(trace.drop_last())
        &&& pacer_event_legal(before.0, before.1, trace.last())
    }
}

/// While a flip is in flight, no render is authorised.
pub proof fn law_pending_flip_blocks_render(pacer: PacerState)
    requires
        pacer.pending_flip,
    ensures
        pacer.decision() != RenderDecision::Render,
{
}

/// An active session with damage outstanding and no flip in flight must render.
pub proof fn law_never_idle_with_damage(pacer: PacerState)
    requires
        pacer.active,
        pacer.damaged,
        !pacer.pending_flip,
    ensures
        pacer.decision() == RenderDecision::Render,
{
}

/// A render has no outcome yet only while no flip is in flight, after any legal
/// sequence of events.
proof fn lemma_rendering_has_no_flip(trace: Seq<PacerEvent>)
    requires
        pacer_trace_legal(trace),
    ensures
        pacer_run(trace).1 ==> !pacer_run(trace).0.pending_flip,
    decreases trace.len(),
{
    if trace.len() > 0 {
        lemma_rendering_has_no_flip(trace.drop_last());
    }
}

/// No legal sequence of events, however long, queues a flip while another is in
/// flight: wherever a flip is queued, none is pending.
pub proof fn law_never_two_flips(trace: Seq<PacerEvent>)
    requires
        pacer_trace_legal(trace),
        trace.len() > 0,
        trace.last() is Queued,
    ensures
        !pacer_run(trace.drop_last()).0.pending_flip,
{
    lemma_rendering_has_no_flip(trace.drop_last());
}

/// Damage that arrives while a render is under way survives its outcome: after the
/// frame is queued and its flip completes, an active session renders again.
pub proof fn law_damage_during_render_is_not_lost(pacer: PacerState)
    requires
        pacer.decision() == RenderDecision::Render,
    ensures
        ({
            let drawing = pacer_after(pacer, false, PacerEvent::Render);
            let damaged = pacer_after(drawing.0, drawing.1, PacerEvent::Damage);
            let queued = pacer_after(damaged.0, damaged.1, PacerEvent::Queued);
            let flipped = pacer_after(queued.0, queued.1, PacerEvent::Flip);
            flipped.0.decision() == RenderDecision::Render
        }),
{
}

/// A frame that came out empty leaves an idle pacer, so it cannot spin.
pub proof fn law_an_empty_frame_idles(pacer: PacerState)
    requires
        pacer.decision() == RenderDecision::Render,
    ensures
        ({
            let drawing = pacer_after(pacer, false, PacerEvent::Render);
            let empty = pacer_after(drawing.0, drawing.1, PacerEvent::Empty);
            empty.0.decision() == RenderDecision::Clean
        }),
{
}

/// Whatever happened before, a resumed session repaints at once: neither a flip
/// queued before the switch nor a clean frame can keep it waiting.
pub proof fn law_resume_repaints(pacer: PacerState, rendering: bool)
    ensures
        pacer_after(pacer, rendering, PacerEvent::Resume).0.decision() == RenderDecision::Render,
{
}

/// Damage coalesces: a second `damage` changes nothing.
pub proof fn law_damage_coalesces(pacer: PacerState, rendering: bool)
    ensures
        ({
            let once = pacer_after(pacer, rendering, PacerEvent::Damage);
            pacer_after(once.0, once.1, PacerEvent::Damage) == once
        }),
{
}

/// A render may begin exactly if none is under way and one is due, its outcome comes
/// exactly while it is, and everything else may happen at any time.
pub proof fn law_what_may_happen_to_a_pacer(pacer: PacerState, rendering: bool, event: PacerEvent)
    ensures
        event is Render ==> (pacer_event_legal(pacer, rendering, event) <==> !rendering
            && pacer.active && pacer.damaged && !pacer.pending_flip),
        event is Queued || event is Empty || event is Failed ==> (pacer_event_legal(
            pacer,
            rendering,
            event,
        ) <==> rendering),
        event is Damage || event is Flip || event is Pause || event is Resume
            ==> pacer_event_legal(pacer, rendering, event),
        pacer_after(pacer, rendering, event).1 == (if event is Render {
            true
        } else if event is Queued || event is Empty || event is Failed {
            false
        } else {
            rendering
        }),
        pacer_after(pacer, rendering, PacerEvent::Empty).0 == pacer,
{
}

} // verus!
