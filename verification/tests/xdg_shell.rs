use kiosk::backend::drm::DrmBackend;
use kiosk::frames::FrameAction;
use kiosk::geometry::{Point, Rectangle, Size};
use kiosk::handlers::compositor::{commit_root, InitialConfigure};
use kiosk::handlers::xdg_shell::{
    grab, grab_allowed, nesting_serial, popup_chain_depth, popup_limits_exceeded, DeviceGrab,
    GrabAction, GrabAttempt, MAX_POPUPS, MAX_POPUP_DEPTH, MAX_TOPLEVELS,
};
use kiosk::pacing::FramePacer;
use kiosk::run::Capabilities;
use kiosk::state::{
    DecorationMode, Kiosk, Output, Subpixel, ToplevelState, Transform, WmCapabilities,
};

fn kiosk() -> Kiosk {
    let output = Output {
        name: "TEST-1".to_string(),
        make: "test".to_string(),
        model: "test".to_string(),
        physical_size: Size { w: 0, h: 0 },
        subpixel: Subpixel::Unknown,
        mode: Some(Size { w: 1920, h: 1080 }),
        transform: Transform::Normal,
        scale: 1,
        location: Point { x: 0, y: 0 },
    };
    let backend = DrmBackend { pacer: FramePacer::new() };
    Kiosk::new(output, backend, None, true, Capabilities { pointer: true, touch: true })
}

fn fullscreen() -> ToplevelState {
    ToplevelState {
        fullscreen: true,
        maximized: false,
        resizing: false,
        activated: false,
        size: Some(Size { w: 1920, h: 1080 }),
        bounds: Some(Size { w: 1920, h: 1080 }),
        capabilities: WmCapabilities {
            window_menu: false,
            maximize: false,
            fullscreen: false,
            minimize: false,
        },
        decoration_mode: None,
    }
}

/// The caps' boundaries. Nothing else covers this arithmetic.
#[test]
fn the_popup_caps_reject_exactly_at_their_limits() {
    // Count: the cap is on what is already tracked, so the (n+1)th is refused.
    assert!(!popup_limits_exceeded(MAX_POPUPS - 1, 1), "refused the last permitted popup");
    assert!(popup_limits_exceeded(MAX_POPUPS, 1), "admitted one past the count cap");

    // Depth: a chain of exactly MAX_POPUP_DEPTH is allowed.
    assert!(!popup_limits_exceeded(0, MAX_POPUP_DEPTH), "refused a chain at the depth cap");
    assert!(popup_limits_exceeded(0, MAX_POPUP_DEPTH + 1), "admitted one past the depth cap");

    // A realistic menu chain is nowhere near either.
    assert!(!popup_limits_exceeded(3, 3), "refused an ordinary submenu chain");
}

#[test]
fn a_first_grab_is_always_allowed() {
    // Nothing is grabbed, so the serials are irrelevant.
    assert!(grab_allowed(false, false, false));
    assert!(grab_allowed(false, true, false));
    assert!(grab_allowed(false, false, true));
}

#[test]
fn nesting_inside_our_own_current_grab_is_allowed() {
    assert!(grab_allowed(true, true, false));
}

#[test]
fn nesting_inside_the_parent_popups_grab_is_allowed() {
    // A submenu opening from a menu: the live grab belongs to the parent.
    assert!(grab_allowed(true, false, true));
}

/// The case this predicate exists for: another client holds the grab and this
/// one owns neither serial, so it is trying to steal input.
#[test]
fn grabbing_over_someone_elses_grab_is_refused() {
    assert!(!grab_allowed(true, false, false));
}

#[test]
fn a_grab_takes_every_device_or_none() {
    let free =
        Some(DeviceGrab { grabbed: false, owns_serial: false, owns_previous_serial: false });
    let taken =
        Some(DeviceGrab { grabbed: true, owns_serial: false, owns_previous_serial: false });
    let granted = GrabAttempt::Granted;
    let install = |keyboard, pointer| GrabAction::Install { keyboard, pointer };
    assert_eq!(grab(granted, free, free), install(true, true));
    assert_eq!(grab(granted, None, free), install(false, true));
    assert_eq!(grab(granted, free, None), install(true, false));
    assert_eq!(grab(granted, None, None), install(false, false));
    assert_eq!(grab(granted, free, taken), GrabAction::Dismiss);
    assert_eq!(grab(granted, taken, free), GrabAction::Dismiss);
    assert_eq!(grab(granted, None, taken), GrabAction::Dismiss);
    for failed in [GrabAttempt::UnknownSeat, GrabAttempt::NoRoot, GrabAttempt::Refused] {
        assert_eq!(grab(failed, taken, free), GrabAction::Ignore);
    }
}

#[test]
fn a_popup_without_a_predecessor_nests_in_its_own_grab() {
    assert_eq!(nesting_serial(Some(4), 9), 4);
    assert_eq!(nesting_serial(None, 9), 9);
}

#[test]
fn a_popup_chain_is_walked_no_further_than_one_past_the_limit() {
    let chain = |popups: u64| {
        // Popup n has parent n - 1, and surface 0 is a toplevel.
        let asked = std::cell::Cell::new(0);
        let depth = popup_chain_depth(Some(popups), |surface: u64| {
            asked.set(asked.get() + 1);
            if surface > 0 { Some(surface - 1) } else { None }
        });
        (depth, asked.get())
    };
    assert_eq!(popup_chain_depth(None, |_: u64| Some(1)), 0);
    assert_eq!(chain(0), (1, 1));
    assert_eq!(chain(2), (3, 3));
    assert_eq!(chain(7), (8, 8));
    assert_eq!(chain(8), (9, 8));
    assert_eq!(chain(1_000_000), (9, 8));
}

#[test]
fn a_toplevel_opens_fullscreen_on_top() {
    let mut k = kiosk();
    let first = k.new_toplevel(11).unwrap();
    assert_eq!(first.configure, fullscreen());
    assert_eq!(first.refocus.focus, Some(11));
    assert_eq!(first.refocus.configure.len(), 1);
    let second = k.new_toplevel(12).unwrap();
    assert_eq!(second.refocus.focus, Some(12));
    // The old top is deactivated and the new one activated.
    let sent: Vec<_> =
        second.refocus.configure.iter().map(|w| (w.surface, w.state.activated)).collect();
    assert_eq!(sent, [(11, false), (12, true)]);
}

#[test]
fn the_toplevel_cap_refuses_the_thirty_third() {
    let mut k = kiosk();
    for surface in 0..MAX_TOPLEVELS as u64 {
        k.new_toplevel(surface).unwrap();
    }
    assert_eq!(k.windows.len(), 32);
    let err = k.new_toplevel(99).unwrap_err();
    assert_eq!(err.code, 2);
    assert_eq!(err.message, "compositor is tracking too many toplevels (limit 32)");
    assert_eq!(k.windows.len(), 32);
}

#[test]
fn a_closed_dialog_hands_focus_back() {
    let mut k = kiosk();
    k.new_toplevel(11).unwrap();
    let before = k.windows.clone();
    k.new_toplevel(12).unwrap();
    let (refocus, step) = k.toplevel_destroyed(12);
    assert_eq!(refocus.focus, Some(11));
    assert_eq!(refocus.configure.len(), 1);
    assert_eq!(step.action, FrameAction::Draw);
    assert_eq!(k.windows, before);
}

#[test]
fn the_last_window_closing_does_not_exit() {
    let mut k = kiosk();
    k.new_toplevel(11).unwrap();
    let (refocus, _) = k.toplevel_destroyed(11);
    assert_eq!(refocus.focus, None);
    assert!(k.windows.is_empty());
    assert_eq!(k.exit_code, None);
}

#[test]
fn popups_are_counted_and_capped() {
    let mut k = kiosk();
    let err = k.new_popup(None, |_: u64| None).unwrap_err();
    assert_eq!(err.code, 2);
    assert_eq!(err.message, "xdg_popup created without a parent surface");
    for popup in 0..MAX_POPUPS as u64 {
        k.new_popup(Some(11), |_: u64| None).unwrap();
        k.popup_tracked(100 + popup, true);
    }
    assert_eq!(k.popups.len(), 64);
    let err = k.new_popup(Some(11), |_: u64| None).unwrap_err();
    assert_eq!(err.code, 2);
    assert_eq!(err.message, "too many popups (limit 64, max depth 8)");
    k.popup_destroyed(130);
    assert_eq!(k.popups.len(), 63);
    assert!(!k.popups.contains(&130));
    assert!(k.new_popup(Some(11), |_: u64| None).is_ok());
    // Too deep, though not too many.
    assert!(k.new_popup(Some(1), |surface: u64| Some(surface)).is_err());
}

#[test]
fn a_popup_that_could_not_be_tracked_is_not_counted() {
    let mut k = kiosk();
    k.popup_tracked(100, true);
    k.popup_tracked(101, false);
    assert_eq!(k.popups, vec![100]);
    k.popup_destroyed(101);
    assert_eq!(k.popups, vec![100]);
}

#[test]
fn a_rejected_popup_is_not_uncounted() {
    let mut k = kiosk();
    k.popup_tracked(100, true);
    k.popup_tracked(101, true);
    k.popup_tracked(102, true);
    // Rejected and gone, while the others stay.
    let step = k.popup_destroyed(7);
    assert_eq!(k.popups, vec![100, 101, 102]);
    assert_eq!(step.action, FrameAction::Draw);
}

#[test]
fn rejected_popups_do_not_widen_the_cap() {
    let mut k = kiosk();
    // The session is away, so that no frame comes in between.
    k.backend.pause();
    for popup in 0..MAX_POPUPS as u64 {
        k.popup_tracked(100 + popup, true);
    }
    for rejected in 1..20 {
        assert!(k.new_popup(Some(11), |_: u64| None).is_err());
        let step = k.popup_destroyed(rejected);
        assert_eq!(step.action, FrameAction::Wait);
        assert_eq!(k.popups.len(), 64);
    }
    assert!(k.new_popup(Some(11), |_: u64| None).is_err());
    k.popup_destroyed(163);
    assert!(k.new_popup(Some(11), |_: u64| None).is_ok());
}

#[test]
fn a_popup_that_opens_and_closes_leaves_the_others() {
    let mut k = kiosk();
    k.popup_tracked(100, true);
    k.popup_tracked(101, true);
    k.popup_destroyed(101);
    assert_eq!(k.popups, vec![100]);
}

#[test]
fn popups_are_kept_inside_the_output() {
    let mut k = kiosk();
    k.new_toplevel(11).unwrap();
    let size = Size { w: 1920, h: 1080 };
    let geometry = Point { x: 26, y: 23 };
    let shifted = Rectangle { loc: Point { x: -26, y: -23 }, size };
    let plain = Rectangle { loc: Point { x: 0, y: 0 }, size };
    assert_eq!(k.constrain_popup(Some(11), geometry), shifted);
    assert_eq!(k.constrain_popup(Some(99), geometry), plain);
    assert_eq!(k.constrain_popup(None, geometry), plain);
}

#[test]
fn no_request_escapes_fullscreen() {
    let mut k = kiosk();
    k.new_toplevel(11).unwrap();
    let active = ToplevelState { activated: true, ..fullscreen() };
    let before = k.windows.clone();
    assert_eq!(k.fullscreen_request(11), active);
    assert_eq!(k.unfullscreen_request(11), active);
    assert_eq!(k.maximize_request(11), active);
    assert_eq!(k.unmaximize_request(11), active);
    k.minimize_request(11);
    k.move_request(11);
    k.resize_request(11);
    assert_eq!(k.windows, before);
    // A toplevel that is not tracked is answered all the same.
    assert_eq!(k.maximize_request(99), fullscreen());
}

#[test]
fn any_state_is_put_into_the_kiosk_geometry() {
    let k = kiosk();
    let mut state = ToplevelState {
        fullscreen: false,
        maximized: true,
        resizing: true,
        activated: true,
        size: None,
        bounds: Some(Size { w: 1, h: 1 }),
        capabilities: WmCapabilities {
            window_menu: true,
            maximize: true,
            fullscreen: true,
            minimize: true,
        },
        decoration_mode: Some(DecorationMode::ClientSide),
    };
    k.configure_fullscreen(&mut state);
    assert_eq!(
        state,
        ToplevelState {
            activated: true,
            decoration_mode: Some(DecorationMode::ClientSide),
            ..fullscreen()
        }
    );
}

#[test]
fn decorations_are_always_server_side() {
    let mut k = kiosk();
    k.new_toplevel(11).unwrap();
    let bare = ToplevelState {
        activated: true,
        decoration_mode: Some(DecorationMode::ServerSide),
        ..fullscreen()
    };
    assert_eq!(k.new_decoration(11), bare);
    assert_eq!(k.request_mode(11, DecorationMode::ClientSide), bare);
    assert_eq!(k.unset_mode(11), bare);
    assert_eq!(k.windows[0].state, bare);
}

#[test]
fn a_sync_subsurface_commits_with_its_parent() {
    assert_eq!(commit_root(5, true, &vec![3, 2]), None);
    assert_eq!(commit_root(5, false, &vec![3, 2]), Some(2));
    assert_eq!(commit_root(5, false, &vec![]), Some(5));
}

#[test]
fn a_first_commit_is_answered_with_a_configure() {
    let mut k = kiosk();
    k.new_toplevel(11).unwrap();
    let active = ToplevelState { activated: true, ..fullscreen() };
    assert_eq!(k.committed_window(Some(11)), Some(11));
    assert_eq!(k.committed_window(Some(99)), None);
    assert_eq!(k.committed_window(None), None);
    let unasked = || -> Option<bool> { panic!("a toplevel is no popup") };
    assert_eq!(
        k.ensure_initial_configure(Some(11), false, unasked),
        InitialConfigure::Toplevel(active)
    );
    assert_eq!(k.ensure_initial_configure(Some(11), true, unasked), InitialConfigure::Nothing);
    assert_eq!(
        k.ensure_initial_configure(Some(50), false, || Some(false)),
        InitialConfigure::Popup
    );
    assert_eq!(
        k.ensure_initial_configure(Some(50), false, || Some(true)),
        InitialConfigure::Nothing
    );
    assert_eq!(k.ensure_initial_configure(None, false, || None), InitialConfigure::Nothing);
}
