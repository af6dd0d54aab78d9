use kiosk::pacing::{FramePacer, RenderDecision};

#[test]
fn starts_active_and_damaged_so_the_first_frame_paints() {
    let pacer = FramePacer::new();
    assert!(pacer.is_active());
    assert!(pacer.is_damaged());
    assert!(!pacer.has_pending_flip());
    assert_eq!(pacer.poll(), RenderDecision::Render);
}

/// `pause` must not touch damage: `resume` force-sets it, which would mask a
/// `pause` that lost state if the two were ever tested only together.
#[test]
fn pausing_preserves_outstanding_damage() {
    let mut pacer = FramePacer::new();
    pacer.begin_render();
    pacer.frame_queued();
    pacer.flip_completed();
    pacer.damage();

    pacer.pause();

    assert!(
        pacer.is_damaged(),
        "pause dropped outstanding damage; resume would be masking it"
    );
}

/// Only `resume` may drop the pre-switch flip — `pause` must leave it, because
/// the kernel may still own it at that point.
#[test]
fn pausing_does_not_forget_a_flip_the_kernel_still_owns() {
    let mut pacer = FramePacer::new();
    pacer.begin_render();
    pacer.frame_queued();

    pacer.pause();

    assert!(pacer.has_pending_flip());
}

#[derive(Copy, Clone, Debug)]
enum Ev {
    Damage,
    Render,
    Queued,
    Empty,
    Failed,
    Flip,
    Pause,
    Resume,
}

const ALL: [Ev; 8] = [
    Ev::Damage,
    Ev::Render,
    Ev::Queued,
    Ev::Empty,
    Ev::Failed,
    Ev::Flip,
    Ev::Pause,
    Ev::Resume,
];

fn walk(pacer: FramePacer, depth: u32, trace: &mut Vec<Ev>, rendering: bool) {
    // Invariant 1: while a flip is in flight, no render is authorised.
    if pacer.has_pending_flip() {
        assert_ne!(pacer.poll(), RenderDecision::Render, "trace: {trace:?}");
    }
    // Invariant 2: active, damaged, and no flip pending => must render.
    if pacer.is_active() && pacer.is_damaged() && !pacer.has_pending_flip() {
        assert_eq!(
            pacer.poll(),
            RenderDecision::Render,
            "idle with damage outstanding; trace: {trace:?}"
        );
    }
    if depth == 0 {
        return;
    }

    for ev in ALL {
        // Only legal transitions: a render must be authorised first, and
        // an outcome only follows a begun render.
        let legal = match ev {
            Ev::Render => !rendering && pacer.poll() == RenderDecision::Render,
            Ev::Queued | Ev::Empty | Ev::Failed => rendering,
            _ => true,
        };
        if !legal {
            continue;
        }

        let mut next = pacer;
        let mut next_rendering = rendering;
        match ev {
            Ev::Damage => next.damage(),
            Ev::Render => {
                next.begin_render();
                next_rendering = true;
            }
            Ev::Queued => {
                next.frame_queued();
                next_rendering = false;
            }
            // No pacer call: an empty frame queues no flip and deliberately
            // does not re-arm damage, so it leaves pacer state untouched.
            Ev::Empty => {
                next_rendering = false;
            }
            Ev::Failed => {
                next.frame_failed();
                next_rendering = false;
            }
            Ev::Flip => next.flip_completed(),
            Ev::Pause => next.pause(),
            Ev::Resume => next.resume(),
        }
        trace.push(ev);
        walk(next, depth - 1, trace, next_rendering);
        trace.pop();
    }
}

/// Check the two invariants across every short event sequence, rather than at
/// hand-picked points. This is what turns the scenario tests above into
/// something closer to a proof.
#[test]
fn the_invariants_hold_across_every_short_event_sequence() {
    walk(FramePacer::new(), 6, &mut Vec::new(), false);
}

#[test]
fn a_clean_pacer_does_not_render() {
    let mut pacer = FramePacer::new();
    pacer.begin_render();
    assert_eq!(pacer.poll(), RenderDecision::Clean);
}

#[test]
fn damage_makes_a_clean_pacer_render_again() {
    let mut pacer = FramePacer::new();
    pacer.begin_render();
    assert_eq!(pacer.poll(), RenderDecision::Clean);

    pacer.damage();
    assert_eq!(pacer.poll(), RenderDecision::Render);
}

/// Invariant 1: never queue two flips.
#[test]
fn a_pending_flip_blocks_further_renders_even_with_damage() {
    let mut pacer = FramePacer::new();
    pacer.begin_render();
    pacer.frame_queued();

    assert_eq!(pacer.poll(), RenderDecision::AwaitingFlip);

    // Fresh damage must not sneak a second flip past the first.
    pacer.damage();
    assert_eq!(pacer.poll(), RenderDecision::AwaitingFlip);
}

#[test]
fn a_pending_flip_is_reported_ahead_of_cleanliness() {
    let mut pacer = FramePacer::new();
    pacer.begin_render();
    pacer.frame_queued();
    // Not damaged and flip pending: the flip is the more accurate reason.
    assert!(!pacer.is_damaged());
    assert_eq!(pacer.poll(), RenderDecision::AwaitingFlip);
}

#[test]
fn the_vblank_after_a_flip_allows_the_next_render_when_damaged() {
    let mut pacer = FramePacer::new();
    pacer.begin_render();
    pacer.frame_queued();

    pacer.damage();
    pacer.flip_completed();
    assert_eq!(pacer.poll(), RenderDecision::Render);
}

#[test]
fn the_vblank_after_a_flip_idles_when_nothing_changed() {
    let mut pacer = FramePacer::new();
    pacer.begin_render();
    pacer.frame_queued();
    pacer.flip_completed();
    assert_eq!(pacer.poll(), RenderDecision::Clean);
}

/// Damage arriving mid-render must survive to the next cycle.
#[test]
fn damage_during_a_render_is_not_lost() {
    let mut pacer = FramePacer::new();

    pacer.begin_render();
    assert!(!pacer.is_damaged(), "begin_render clears damage up front");

    // A client commits while we are rendering.
    pacer.damage();
    pacer.frame_queued();

    pacer.flip_completed();
    assert_eq!(
        pacer.poll(),
        RenderDecision::Render,
        "mid-render damage must schedule another frame"
    );
}

/// Invariant 2, negative case: an empty frame must not spin.
#[test]
fn an_empty_frame_does_not_busy_loop() {
    let mut pacer = FramePacer::new();
    pacer.begin_render();

    // No flip was queued, so no vblank is coming; if this returned Render the
    // compositor would render empty frames forever.
    assert_eq!(pacer.poll(), RenderDecision::Clean);
    assert!(!pacer.has_pending_flip());
}

#[test]
fn a_failed_frame_is_retried() {
    let mut pacer = FramePacer::new();
    pacer.begin_render();
    pacer.frame_failed();

    assert!(pacer.is_damaged());
    assert!(!pacer.has_pending_flip());
    assert_eq!(pacer.poll(), RenderDecision::Render);
}

#[test]
fn a_failure_after_queueing_clears_the_phantom_flip() {
    let mut pacer = FramePacer::new();
    pacer.begin_render();
    pacer.frame_queued();
    // The commit turned out to have failed.
    pacer.frame_failed();

    assert!(!pacer.has_pending_flip());
    assert_eq!(pacer.poll(), RenderDecision::Render);
}

#[test]
fn a_paused_session_never_renders() {
    let mut pacer = FramePacer::new();
    pacer.pause();

    assert!(!pacer.is_active());
    assert_eq!(pacer.poll(), RenderDecision::Inactive);

    // Damage while paused is remembered but still does not render.
    pacer.damage();
    assert_eq!(pacer.poll(), RenderDecision::Inactive);
}

#[test]
fn pausing_takes_priority_over_a_pending_flip() {
    let mut pacer = FramePacer::new();
    pacer.begin_render();
    pacer.frame_queued();
    pacer.pause();
    assert_eq!(pacer.poll(), RenderDecision::Inactive);
}

/// The VT-switch bug this struct exists to prevent: a flip queued before the
/// switch never reports a vblank, so resuming must not wait for it.
#[test]
fn resuming_clears_a_flip_that_will_never_complete() {
    let mut pacer = FramePacer::new();
    pacer.begin_render();
    pacer.frame_queued();
    pacer.pause();

    pacer.resume();

    assert!(pacer.is_active());
    assert!(pacer.is_damaged(), "the CRTC was reprogrammed while away");
    assert!(
        !pacer.has_pending_flip(),
        "waiting on the pre-switch flip would hang forever"
    );
    assert_eq!(pacer.poll(), RenderDecision::Render);
}

#[test]
fn resuming_from_clean_still_repaints() {
    let mut pacer = FramePacer::new();
    pacer.begin_render();
    assert_eq!(pacer.poll(), RenderDecision::Clean);

    pacer.pause();
    pacer.resume();
    assert_eq!(
        pacer.poll(),
        RenderDecision::Render,
        "the screen contents are gone after a VT switch"
    );
}

/// A full steady-state cycle: commit, render, flip, vblank, idle.
#[test]
fn steady_state_cycle() {
    let mut pacer = FramePacer::new();

    // Startup frame.
    assert_eq!(pacer.poll(), RenderDecision::Render);
    pacer.begin_render();
    pacer.frame_queued();
    pacer.flip_completed();
    assert_eq!(pacer.poll(), RenderDecision::Clean);

    // Three client frames.
    for _ in 0..3 {
        pacer.damage();
        assert_eq!(pacer.poll(), RenderDecision::Render);
        pacer.begin_render();
        pacer.frame_queued();
        assert_eq!(pacer.poll(), RenderDecision::AwaitingFlip);
        pacer.flip_completed();
        assert_eq!(pacer.poll(), RenderDecision::Clean);
    }

    assert!(!pacer.is_damaged());
    assert!(!pacer.has_pending_flip());
    assert!(pacer.is_active());
}

/// Repeated damage between flips must not accumulate into extra flips.
#[test]
fn repeated_damage_coalesces_into_one_frame() {
    let mut pacer = FramePacer::new();
    pacer.begin_render();
    pacer.frame_queued();
    pacer.flip_completed();

    for _ in 0..5 {
        pacer.damage();
    }

    assert_eq!(pacer.poll(), RenderDecision::Render);
    pacer.begin_render();
    pacer.frame_queued();
    pacer.flip_completed();
    // All five damage events collapsed into a single frame.
    assert_eq!(pacer.poll(), RenderDecision::Clean);
}
