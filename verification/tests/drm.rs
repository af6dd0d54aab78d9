use kiosk::backend::discovery::{Mode, OutputCandidate};
use kiosk::backend::drm::{build_output, note_frame, pick_crtc, DrmBackend, InitError};
use kiosk::frames::{FrameAction, FrameOutcome, FramePhase, FrameStep, MAX_CONSECUTIVE_DROPS};
use kiosk::geometry::{Point, Size};
use kiosk::run::Capabilities;
use kiosk::state::{Kiosk, Subpixel, Transform};

fn candidate(mode: Option<Mode>) -> OutputCandidate {
    OutputCandidate {
        device: b"/dev/dri/card0".to_vec(),
        device_id: 7,
        connector: 1,
        name: "DP-1".to_string(),
        connected: true,
        preferred_mode: mode,
    }
}

fn full_hd() -> Mode {
    Mode { width: 1920, height: 1080, vrefresh: 60, preferred: true, index: 0 }
}

fn kiosk() -> Kiosk {
    let init =
        DrmBackend::init(&candidate(Some(full_hd())), Some(&vec![Some(vec![40])]), None).unwrap();
    let capabilities = Capabilities { pointer: true, touch: false };
    Kiosk::new(init.output, init.backend, None, true, capabilities)
}

fn just(action: FrameAction) -> FrameStep {
    FrameStep { record_scanout: false, release_clients: false, action }
}

/// Draw and queue the frame that is due.
fn flip(kiosk: &mut Kiosk) {
    assert_eq!(kiosk.frame_drawn(FrameOutcome::Visible).action, FrameAction::Queue);
    assert_eq!(kiosk.frame_queued(true), just(FrameAction::Wait));
}

fn stalled(kiosk: &Kiosk) -> bool {
    kiosk.phase == FramePhase::Idle
        && kiosk.backend.pacer.is_active()
        && kiosk.backend.pacer.is_damaged()
        && !kiosk.backend.pacer.has_pending_flip()
        && !kiosk.retry_armed
        && kiosk.exit_code.is_none()
}

#[test]
fn one_drop_does_not_escalate() {
    let mut drops = 0;
    assert!(!note_frame(&mut drops, false));
    assert_eq!(drops, 1);
}

/// Pins the off-by-one: the escalation must fire *at* the limit, not before.
#[test]
fn the_budget_escalates_exactly_at_the_limit() {
    let mut drops = 0;
    for n in 1..MAX_CONSECUTIVE_DROPS {
        assert!(!note_frame(&mut drops, false), "escalated early, at drop {n}");
    }
    assert!(note_frame(&mut drops, false), "did not escalate at the limit");
    assert_eq!(drops, MAX_CONSECUTIVE_DROPS);
}

/// A flaky-but-recovering display must stay alive: the reset is what keeps it so.
///
/// The success is reported *through* `note_frame` rather than by the test
/// zeroing the counter itself. That is the whole point — a test that performs
/// the reset by hand is byte-for-byte the off-by-one test above and cannot
/// observe the reset going missing.
#[test]
fn a_success_resets_the_budget() {
    let mut drops = 0;
    for _ in 1..MAX_CONSECUTIVE_DROPS {
        note_frame(&mut drops, false);
    }
    assert_eq!(drops, MAX_CONSECUTIVE_DROPS - 1, "setup did not spend the budget");

    assert!(!note_frame(&mut drops, true), "a success must never escalate");
    assert_eq!(drops, 0, "a success must clear the budget");

    for n in 1..MAX_CONSECUTIVE_DROPS {
        assert!(!note_frame(&mut drops, false), "a reset budget escalated early, at drop {n}");
    }
}

/// A success on an already-clear budget is not an underflow.
#[test]
fn repeated_successes_are_harmless() {
    let mut drops = 0;
    for _ in 0..3 {
        assert!(!note_frame(&mut drops, true));
        assert_eq!(drops, 0);
    }
}

#[test]
fn the_first_reachable_crtc_is_picked() {
    assert_eq!(pick_crtc(&vec![]), None);
    assert_eq!(pick_crtc(&vec![None, Some(vec![])]), None);
    assert_eq!(pick_crtc(&vec![None, Some(vec![]), Some(vec![40, 41]), Some(vec![42])]), Some(40));
}

#[test]
fn an_output_is_described_from_its_connector() {
    let output = build_output(&candidate(None), Some((527, 296)), full_hd());
    assert_eq!(output.name, "DP-1");
    assert_eq!(output.make, "Unknown");
    assert_eq!(output.model, "Unknown");
    assert_eq!(output.physical_size, Size { w: 527, h: 296 });
    assert_eq!(output.mode, Some(Size { w: 1920, h: 1080 }));
    assert_eq!(output.scale, 1);
    assert_eq!(output.location, Point { x: 0, y: 0 });
    let output = build_output(&candidate(None), None, full_hd());
    assert_eq!(output.physical_size, Size { w: 0, h: 0 });
}

#[test]
fn an_output_is_brought_up_in_its_preferred_mode() {
    let init =
        DrmBackend::init(&candidate(Some(full_hd())), Some(&vec![Some(vec![40])]), None).unwrap();
    assert_eq!(init.crtc, 40);
    assert_eq!(init.mode, full_hd());
    assert_eq!(init.preferred, full_hd());
    assert_eq!(init.output.mode, Some(Size { w: 1920, h: 1080 }));
    assert_eq!(init.output.transform, Transform::Normal);
    assert_eq!(init.output.subpixel, Subpixel::Unknown);
    assert!(init.backend.pacer.is_active());
    assert!(init.backend.pacer.is_damaged());
    assert!(!init.backend.pacer.has_pending_flip());
}

#[test]
fn an_output_that_cannot_be_brought_up_is_named() {
    let encoders = vec![Some(vec![40])];
    let err = DrmBackend::init(&candidate(None), Some(&encoders), None).unwrap_err();
    assert!(matches!(err, InitError::NoMode { .. }));
    assert_eq!(err.message(), "output DP-1 reports no usable mode; it may have been unplugged");
    let err = DrmBackend::init(&candidate(Some(full_hd())), None, None).unwrap_err();
    assert!(matches!(err, InitError::NoResources { .. }));
    assert_eq!(
        err.message(),
        "no CRTC available for output DP-1: failed to read DRM resources"
    );
    let err = DrmBackend::init(&candidate(Some(full_hd())), Some(&vec![None]), None).unwrap_err();
    assert!(matches!(err, InitError::NoCrtc { .. }));
    assert_eq!(
        err.message(),
        "no CRTC available for output DP-1: connector has no usable encoder/CRTC combination"
    );
}

#[test]
fn a_frame_is_drawn_queued_and_flipped() {
    let mut k = kiosk();
    assert_eq!(k.render(), just(FrameAction::Draw));
    assert_eq!(
        k.frame_drawn(FrameOutcome::Visible),
        FrameStep { record_scanout: true, release_clients: false, action: FrameAction::Queue }
    );
    assert_eq!(k.frame_queued(true), just(FrameAction::Wait));
    // Nothing happens while the flip is in flight, but damage is remembered.
    assert_eq!(k.commit(), just(FrameAction::Wait));
    // The vblank releases clients and draws what changed meanwhile.
    assert_eq!(
        k.on_vblank(true),
        FrameStep { record_scanout: false, release_clients: true, action: FrameAction::Draw }
    );
    flip(&mut k);
    assert_eq!(
        k.on_vblank(true),
        FrameStep { record_scanout: false, release_clients: true, action: FrameAction::Wait }
    );
    assert!(!stalled(&k));
}

#[test]
fn an_empty_frame_releases_clients_and_idles() {
    let mut k = kiosk();
    k.consecutive_drops = 5;
    k.render();
    assert_eq!(
        k.frame_drawn(FrameOutcome::Empty),
        FrameStep { record_scanout: true, release_clients: true, action: FrameAction::Wait }
    );
    assert_eq!(k.consecutive_drops, 0);
    assert_eq!(k.render(), just(FrameAction::Wait));
    assert!(!stalled(&k));
}

#[test]
fn a_dropped_frame_arms_one_retry() {
    let mut k = kiosk();
    k.render();
    let release =
        |action| FrameStep { record_scanout: false, release_clients: true, action };
    assert_eq!(k.frame_drawn(FrameOutcome::Failed), release(FrameAction::ArmRetry));
    assert_eq!(k.retry_scheduled(true), just(FrameAction::Wait));
    assert!(k.retry_armed && !stalled(&k));
    // A second failure before the timer fires does not arm another one.
    assert_eq!(k.commit(), just(FrameAction::Draw));
    assert_eq!(k.frame_drawn(FrameOutcome::Visible).action, FrameAction::Queue);
    assert_eq!(k.frame_queued(false), release(FrameAction::Wait));
    assert_eq!(k.consecutive_drops, 2);
    assert_eq!(k.retry_fired(), just(FrameAction::Draw));
    assert!(!k.retry_armed);
    flip(&mut k);
    assert_eq!(k.consecutive_drops, 0);
    assert!(!stalled(&k));
}

#[test]
fn a_retry_that_cannot_be_armed_is_fatal() {
    let mut k = kiosk();
    k.render();
    k.frame_drawn(FrameOutcome::Failed);
    assert_eq!(k.retry_scheduled(false), just(FrameAction::Stop));
    assert_eq!(k.exit_code, Some(1));
    assert!(!stalled(&k));
}

#[test]
fn sixty_dropped_frames_in_a_row_are_fatal() {
    let mut k = kiosk();
    let mut step = k.render();
    for n in 1..=60 {
        assert_eq!(step.action, FrameAction::Draw);
        step = k.frame_drawn(FrameOutcome::Failed);
        if n == 60 {
            assert_eq!(step.action, FrameAction::Stop);
        } else {
            assert_eq!(step.action, FrameAction::ArmRetry, "at drop {n}");
            assert_eq!(k.exit_code, None);
            k.retry_scheduled(true);
            step = k.retry_fired();
        }
    }
    assert_eq!(k.exit_code, Some(1));
}

#[test]
fn submission_failures_have_their_own_budget() {
    let mut k = kiosk();
    k.render();
    for n in 1..=60 {
        flip(&mut k);
        let step = k.on_vblank(false);
        if n == 60 {
            assert_eq!(step, just(FrameAction::Stop));
        } else {
            // The frame is owed again, and drawing it succeeds.
            assert_eq!(step.action, FrameAction::Draw, "at failure {n}");
            assert!(step.release_clients);
            assert_eq!(k.submit_failures, n);
        }
        assert_eq!(k.consecutive_drops, 0);
    }
    assert_eq!(k.exit_code, Some(1));
}

#[test]
fn pausing_and_resuming_the_backend_drives_the_pacer() {
    let mut k = kiosk();
    k.render();
    flip(&mut k);
    k.backend.pause();
    assert!(!k.backend.is_active());
    assert!(k.backend.pacer.has_pending_flip());
    assert_eq!(k.render(), just(FrameAction::Wait));
    k.backend.resume();
    assert!(k.backend.is_active());
    assert_eq!(k.render(), just(FrameAction::Draw));
}
