//! Pacing: what each operation does to the frame loop.
//!
//! The frame loop itself is the subject of the laws of [`crate::frames`]; here every
//! operation of [`Kiosk`] is held to the event it stands for, and every operation of
//! [`FramePacer`] to what becomes of its flags.

use vstd::prelude::*;

use crate::backend::drm::{note_frame, DrmBackend};
use crate::cli::Binding;
use crate::frames::{
    frame_after, frame_step, FrameAction, FrameEvent, FrameOutcome, FramePhase, FrameState,
    FrameStep,
};
use crate::pacing::{pacer_after, FramePacer, PacerEvent, PacerState, RenderDecision};
use crate::run::Capabilities;
use crate::state::{CursorImageStatus, Kiosk, KioskState, Output};

verus! {

/// Is `after` what `event` makes of `before`, with that step, and is nothing but the
/// frame loop touched?
pub open spec fn is_event(
    before: KioskState,
    event: FrameEvent,
    after: KioskState,
    step: FrameStep,
) -> bool {
    &&& after.frames == frame_after(before.frames, event)
    &&& step == frame_step(before.frames, event)
    &&& same_but_for_frames(before, after)
}

/// Do the two differ in the frame loop at most?
pub open spec fn same_but_for_frames(before: KioskState, after: KioskState) -> bool {
    &&& after.keyboard == before.keyboard
    &&& after.pointer == before.pointer
    &&& after.touch == before.touch
    &&& after.cursor == before.cursor
    &&& after.exit_key == before.exit_key
    &&& after.pressed_keys == before.pressed_keys
    &&& after.last_input_time == before.last_input_time
    &&& after.windows == before.windows
    &&& after.popups == before.popups
    &&& after.output == before.output
}

/// A commit and a moved pointer are changes of content, and touch nothing but the frame
/// loop.
pub proof fn law_changes_of_content()
    ensures
        forall|kiosk: &mut Kiosk, step: FrameStep| #[trigger]
            call_ensures(Kiosk::commit, (kiosk,), step) ==> is_event(
                (*kiosk)@,
                FrameEvent::Changed,
                final(kiosk)@,
                step,
            ),
        forall|kiosk: &mut Kiosk, step: FrameStep| #[trigger]
            call_ensures(Kiosk::pointer_moved, (kiosk,), step) ==> is_event(
                (*kiosk)@,
                FrameEvent::Changed,
                final(kiosk)@,
                step,
            ),
        forall|kiosk: &mut Kiosk, step: FrameStep| #[trigger]
            call_ensures(Kiosk::refresh, (kiosk,), step) ==> is_event(
                (*kiosk)@,
                FrameEvent::Changed,
                final(kiosk)@,
                step,
            ),
{
}

/// A new cursor image is a change of content, and becomes the cursor.
pub proof fn law_a_cursor_image_is_shown()
    ensures
        forall|kiosk: &mut Kiosk, image: CursorImageStatus, step: FrameStep| #[trigger]
            call_ensures(Kiosk::cursor_image, (kiosk, image), step) ==> {
                &&& final(kiosk)@.cursor == image
                &&& is_event(
                    KioskState { cursor: image, ..(*kiosk)@ },
                    FrameEvent::Changed,
                    final(kiosk)@,
                    step,
                )
            },
{
}

/// Each outcome that is reported is the event of that outcome.
pub proof fn law_reports_are_events()
    ensures
        forall|kiosk: &mut Kiosk, outcome: FrameOutcome, step: FrameStep| #[trigger]
            call_ensures(Kiosk::frame_drawn, (kiosk, outcome), step) ==> is_event(
                (*kiosk)@,
                FrameEvent::Drawn(outcome),
                final(kiosk)@,
                step,
            ),
        forall|kiosk: &mut Kiosk, succeeded: bool, step: FrameStep| #[trigger]
            call_ensures(Kiosk::frame_queued, (kiosk, succeeded), step) ==> is_event(
                (*kiosk)@,
                FrameEvent::Queued(succeeded),
                final(kiosk)@,
                step,
            ),
        forall|kiosk: &mut Kiosk, succeeded: bool, step: FrameStep| #[trigger]
            call_ensures(Kiosk::retry_scheduled, (kiosk, succeeded), step) ==> is_event(
                (*kiosk)@,
                FrameEvent::Scheduled(succeeded),
                final(kiosk)@,
                step,
            ),
        forall|kiosk: &mut Kiosk, step: FrameStep| #[trigger]
            call_ensures(Kiosk::retry_fired, (kiosk,), step) ==> is_event(
                (*kiosk)@,
                FrameEvent::RetryFired,
                final(kiosk)@,
                step,
            ),
        forall|kiosk: &mut Kiosk, submitted: bool, step: FrameStep| #[trigger]
            call_ensures(Kiosk::on_vblank, (kiosk, submitted), step) ==> is_event(
                (*kiosk)@,
                FrameEvent::Flipped(submitted),
                final(kiosk)@,
                step,
            ),
        forall|kiosk: &mut Kiosk, resumed: bool, step: FrameStep| #[trigger]
            call_ensures(Kiosk::session_activated, (kiosk, resumed), step) ==> is_event(
                (*kiosk)@,
                FrameEvent::Activated(resumed),
                final(kiosk)@,
                step,
            ),
{
}

/// Rendering draws exactly if the session is in front, something changed and no flip is
/// in flight; otherwise it does nothing at all.
pub proof fn law_render_draws_what_is_due()
    ensures
        forall|kiosk: &mut Kiosk, step: FrameStep| #[trigger]
            call_ensures(Kiosk::render, (kiosk,), step) ==> {
                let pacer = (*kiosk)@.frames.pacer;
                let due = pacer.active && pacer.damaged && !pacer.pending_flip;
                &&& step.action == (if due {
                    FrameAction::Draw
                } else {
                    FrameAction::Wait
                })
                &&& !step.release_clients && !step.record_scanout
                &&& same_but_for_frames((*kiosk)@, final(kiosk)@)
                &&& !due ==> final(kiosk)@.frames == (*kiosk)@.frames
                &&& due ==> final(kiosk)@.frames == (FrameState {
                    pacer: PacerState { damaged: false, ..pacer },
                    phase: FramePhase::Drawing,
                    ..(*kiosk)@.frames
                })
            },
{
}

/// The session that is coming back is in front, owes a frame and waits for no flip; the
/// rest of the frame loop stays as it was.
pub proof fn law_a_resuming_session_owes_a_frame()
    ensures
        forall|kiosk: &mut Kiosk, done: ()| #[trigger]
            call_ensures(Kiosk::session_resuming, (kiosk,), done) ==> {
                let before = (*kiosk)@.frames;
                let after = final(kiosk)@.frames;
                &&& after.pacer.active && after.pacer.damaged && !after.pacer.pending_flip
                &&& after.phase == before.phase
                &&& after.retry_armed == before.retry_armed
                &&& after.drops == before.drops
                &&& after.submit_failures == before.submit_failures
                &&& after.exit_code == before.exit_code
                &&& same_but_for_frames((*kiosk)@, final(kiosk)@)
            },
{
}

/// A budget is restored by a success and spent by the sixtieth failure in a row.
pub proof fn law_a_budget_is_sixty_failures()
    ensures
        forall|drops: &mut u32, succeeded: bool, spent: bool| #[trigger]
            call_ensures(note_frame, (drops, succeeded), spent) ==> {
                &&& succeeded ==> *final(drops) == 0 && !spent
                &&& !succeeded ==> *final(drops) == *drops + 1 && spent == (*drops >= 59)
            },
{
}

/// A pacer allows a render exactly if the session is in front, something changed and no
/// flip is in flight, and says which of these is missing: the session first, then the
/// flip.
pub proof fn law_poll_says_what_is_missing(pacer: &FramePacer, decision: RenderDecision)
    requires
        call_ensures(FramePacer::poll, (pacer,), decision),
    ensures
        decision == RenderDecision::Render <==> pacer@.active && pacer@.damaged
            && !pacer@.pending_flip,
        decision == RenderDecision::Inactive <==> !pacer@.active,
        decision == RenderDecision::AwaitingFlip <==> pacer@.active && pacer@.pending_flip,
        decision == RenderDecision::Clean <==> pacer@.active && !pacer@.pending_flip
            && !pacer@.damaged,
{
}

/// A new pacer is in front and owes its first frame.
pub proof fn law_a_new_pacer_owes_a_frame(pacer: FramePacer)
    requires
        call_ensures(FramePacer::new, (), pacer) || call_ensures(FramePacer::default, (), pacer),
    ensures
        pacer@.active,
        pacer@.damaged,
        !pacer@.pending_flip,
{
}

/// What is asked of a pacer is what it holds.
pub proof fn law_a_pacer_tells_its_flags(pacer: &FramePacer, flag: bool)
    ensures
        call_ensures(FramePacer::is_active, (pacer,), flag) ==> flag == pacer@.active,
        call_ensures(FramePacer::is_damaged, (pacer,), flag) ==> flag == pacer@.damaged,
        call_ensures(FramePacer::has_pending_flip, (pacer,), flag) ==> flag == pacer@.pending_flip,
{
}

/// Each thing that happens to a pacer sets the flags it is about and leaves the others.
pub proof fn law_what_becomes_of_the_flags()
    ensures
        forall|pacer: &mut FramePacer, done: ()| #[trigger]
            call_ensures(FramePacer::damage, (pacer,), done) ==> {
                &&& final(pacer)@.damaged
                &&& final(pacer)@.active == (*pacer)@.active
                &&& final(pacer)@.pending_flip == (*pacer)@.pending_flip
            },
        forall|pacer: &mut FramePacer, done: ()| #[trigger]
            call_ensures(FramePacer::begin_render, (pacer,), done) ==> {
                &&& !final(pacer)@.damaged
                &&& final(pacer)@.active == (*pacer)@.active
                &&& final(pacer)@.pending_flip == (*pacer)@.pending_flip
            },
        forall|pacer: &mut FramePacer, done: ()| #[trigger]
            call_ensures(FramePacer::frame_queued, (pacer,), done) ==> {
                &&& final(pacer)@.pending_flip
                &&& final(pacer)@.active == (*pacer)@.active
                &&& final(pacer)@.damaged == (*pacer)@.damaged
            },
        forall|pacer: &mut FramePacer, done: ()| #[trigger]
            call_ensures(FramePacer::frame_failed, (pacer,), done) ==> {
                &&& final(pacer)@.damaged
                &&& !final(pacer)@.pending_flip
                &&& final(pacer)@.active == (*pacer)@.active
            },
        forall|pacer: &mut FramePacer, done: ()| #[trigger]
            call_ensures(FramePacer::flip_completed, (pacer,), done) ==> {
                &&& !final(pacer)@.pending_flip
                &&& final(pacer)@.active == (*pacer)@.active
                &&& final(pacer)@.damaged == (*pacer)@.damaged
            },
        forall|pacer: &mut FramePacer, done: ()| #[trigger]
            call_ensures(FramePacer::pause, (pacer,), done) ==> {
                &&& !final(pacer)@.active
                &&& final(pacer)@.damaged == (*pacer)@.damaged
                &&& final(pacer)@.pending_flip == (*pacer)@.pending_flip
            },
        forall|pacer: &mut FramePacer, done: ()| #[trigger]
            call_ensures(FramePacer::resume, (pacer,), done) ==> {
                &&& final(pacer)@.active
                &&& final(pacer)@.damaged
                &&& !final(pacer)@.pending_flip
            },
{
}

/// The backend hands what happens to the session on to its pacer.
pub proof fn law_the_backend_follows_the_session()
    ensures
        forall|backend: &mut DrmBackend, done: ()| #[trigger]
            call_ensures(DrmBackend::pause, (backend,), done) ==> {
                &&& !final(backend).pacer@.active
                &&& final(backend).pacer@.damaged == (*backend).pacer@.damaged
                &&& final(backend).pacer@.pending_flip == (*backend).pacer@.pending_flip
            },
        forall|backend: &mut DrmBackend, done: ()| #[trigger]
            call_ensures(DrmBackend::resume, (backend,), done) ==> {
                &&& final(backend).pacer@.active
                &&& final(backend).pacer@.damaged
                &&& !final(backend).pacer@.pending_flip
            },
        forall|backend: &mut DrmBackend, done: ()| #[trigger]
            call_ensures(DrmBackend::damage, (backend,), done) ==> {
                &&& final(backend).pacer@.damaged
                &&& final(backend).pacer@.active == (*backend).pacer@.active
                &&& final(backend).pacer@.pending_flip == (*backend).pacer@.pending_flip
            },
        forall|backend: &DrmBackend, active: bool| #[trigger]
            call_ensures(DrmBackend::is_active, (backend,), active) ==> active
                == backend.pacer@.active,
{
}

/// What happens to a pacer is the event of its trace, so that what holds of every trace
/// holds of every pacer.
pub proof fn law_pacer_operations_are_events(rendering: bool)
    ensures
        forall|pacer: &mut FramePacer, done: ()| #[trigger]
            call_ensures(FramePacer::damage, (pacer,), done) ==> final(pacer)@ == pacer_after(
                (*pacer)@,
                rendering,
                PacerEvent::Damage,
            ).0,
        forall|pacer: &mut FramePacer, done: ()| #[trigger]
            call_ensures(FramePacer::begin_render, (pacer,), done) ==> final(pacer)@
                == pacer_after((*pacer)@, rendering, PacerEvent::Render).0,
        forall|pacer: &mut FramePacer, done: ()| #[trigger]
            call_ensures(FramePacer::frame_queued, (pacer,), done) ==> final(pacer)@
                == pacer_after((*pacer)@, rendering, PacerEvent::Queued).0,
        forall|pacer: &mut FramePacer, done: ()| #[trigger]
            call_ensures(FramePacer::frame_failed, (pacer,), done) ==> final(pacer)@
                == pacer_after((*pacer)@, rendering, PacerEvent::Failed).0,
        forall|pacer: &mut FramePacer, done: ()| #[trigger]
            call_ensures(FramePacer::flip_completed, (pacer,), done) ==> final(pacer)@
                == pacer_after((*pacer)@, rendering, PacerEvent::Flip).0,
        forall|pacer: &mut FramePacer, done: ()| #[trigger]
            call_ensures(FramePacer::pause, (pacer,), done) ==> final(pacer)@ == pacer_after(
                (*pacer)@,
                rendering,
                PacerEvent::Pause,
            ).0,
        forall|pacer: &mut FramePacer, done: ()| #[trigger]
            call_ensures(FramePacer::resume, (pacer,), done) ==> final(pacer)@ == pacer_after(
                (*pacer)@,
                rendering,
                PacerEvent::Resume,
            ).0,
{
}

/// A new kiosk has an empty screen and the devices, the output, the exit key and the pacer
/// that it was given; nothing is held, tracked, dropped or to be exited with.
pub proof fn law_how_a_kiosk_starts(
    output: Output,
    backend: DrmBackend,
    exit_key: Option<Binding>,
    keyboard: bool,
    capabilities: Capabilities,
    kiosk: Kiosk,
)
    requires
        call_ensures(Kiosk::new, (output, backend, exit_key, keyboard, capabilities), kiosk),
    ensures
        kiosk.keyboard == keyboard,
        kiosk.pointer == capabilities.pointer,
        kiosk.touch == capabilities.touch,
        kiosk.exit_key == exit_key,
        kiosk.output == output,
        kiosk.backend.pacer@ == backend.pacer@,
        kiosk.windows@.len() == 0,
        kiosk.popups@.len() == 0,
        kiosk.pressed_keys@.len() == 0,
        kiosk.cursor_status == CursorImageStatus::Named,
        kiosk.phase == FramePhase::Idle,
        !kiosk.retry_armed,
        kiosk.consecutive_drops == 0,
        kiosk.submit_failures == 0,
        kiosk.exit_code is None,
{
    assert(kiosk@.windows.len() == 0 && kiosk@.popups.len() == 0 && kiosk@.pressed_keys.len() == 0);
    assert(kiosk@.frames.drops == 0 && kiosk@.frames.submit_failures == 0);
}

/// A step that is nothing but an action does nothing else.
pub proof fn law_a_step_that_is_only_an_action(action: FrameAction, step: FrameStep)
    requires
        call_ensures(FrameStep::only, (action,), step),
    ensures
        step.action == action,
        !step.release_clients,
        !step.record_scanout,
{
}

} // verus!
