use kiosk::backend::discovery::OutputCandidate;
use kiosk::backend::drm::DrmBackend;
use kiosk::backend::input::{KeyEvent, KeyRelease, KeyState};
use kiosk::child::SpawnError;
use kiosk::cli::{Binding, Cli, ModifiersState};
use kiosk::frames::{FrameAction, FrameOutcome};
use kiosk::geometry::{Point, Size};
use kiosk::pacing::FramePacer;
use kiosk::run::{
    check_arguments, panic_message, panic_report, probe_capabilities, process_exit_code, start,
    ArgumentError, Capabilities, Startup,
};
use kiosk::state::{latch_exit_code, Kiosk, Output, Subpixel, Transform};

#[test]
fn capabilities_default_to_nothing() {
    let caps = Capabilities::default();
    assert!(!caps.pointer);
    assert!(!caps.touch);
}

#[test]
fn one_device_grants_exactly_its_own_capabilities() {
    for (pointer, touch) in [(true, false), (false, true), (true, true), (false, false)] {
        let mut caps = Capabilities::default();
        caps.add_device(pointer, touch);
        assert_eq!(caps, Capabilities { pointer, touch }, "{pointer} {touch}");
    }
}

/// The bug the union guards against: a later capability-less device must not
/// clear what an earlier one established.
#[test]
fn a_keyboard_after_a_mouse_does_not_clear_the_pointer() {
    let mut caps = Capabilities::default();
    caps.add_device(true, false);
    caps.add_device(false, false);
    assert!(caps.pointer, "the mouse was forgotten");
}

#[test]
fn capabilities_accumulate_across_devices() {
    let mut caps = Capabilities::default();
    caps.add_device(false, false); // keyboard
    caps.add_device(true, false); // mouse
    caps.add_device(false, true); // touchscreen
    assert_eq!(
        caps,
        Capabilities {
            pointer: true,
            touch: true
        }
    );
}

#[test]
fn the_first_exit_code_wins() {
    let mut code = None;
    latch_exit_code(&mut code, 42);
    // e.g. --exit-key firing during teardown.
    latch_exit_code(&mut code, 0);
    assert_eq!(code, Some(42), "the child's status was overwritten");
}

#[test]
fn a_zero_status_still_latches() {
    let mut code = None;
    latch_exit_code(&mut code, 0);
    latch_exit_code(&mut code, 1);
    assert_eq!(code, Some(0));
}

#[test]
fn latching_an_error_after_success_is_refused() {
    let mut code = Some(0);
    latch_exit_code(&mut code, 1);
    assert_eq!(code, Some(0));
}

fn cli() -> Cli {
    Cli {
        output: None,
        list_outputs: false,
        exit_key: None,
        log_file: None,
        verbose: 0,
        command: vec!["/bin/true".to_string()],
    }
}

fn candidate(name: &str, connected: bool) -> OutputCandidate {
    OutputCandidate {
        device: b"/dev/dri/card0".to_vec(),
        device_id: 7,
        connector: 1,
        name: name.to_string(),
        connected,
        preferred_mode: None,
    }
}

fn kiosk() -> Kiosk {
    let output = Output {
        name: "TEST-1".to_string(),
        make: "test".to_string(),
        model: "test".to_string(),
        physical_size: Size { w: 0, h: 0 },
        subpixel: Subpixel::Unknown,
        mode: Some(Size { w: 1920, h: 1080 }),
        transform: Transform::Normal,
        scale: 1,
        location: Point { x: 0, y: 0 },
    };
    let backend = DrmBackend { pacer: FramePacer::new() };
    Kiosk::new(output, backend, None, true, Capabilities { pointer: true, touch: true })
}

#[test]
fn probing_takes_the_union_of_all_devices() {
    assert_eq!(probe_capabilities(&vec![]), Capabilities { pointer: false, touch: false });
    let mouse = (true, false);
    let keyboard = (false, false);
    let screen = (false, true);
    assert_eq!(
        probe_capabilities(&vec![mouse, keyboard]),
        Capabilities { pointer: true, touch: false }
    );
    assert_eq!(
        probe_capabilities(&vec![keyboard, screen, mouse]),
        probe_capabilities(&vec![mouse, screen, keyboard])
    );
}

#[test]
fn no_command_fails_with_usage_before_touching_a_seat() {
    let no_command = Cli { command: Vec::new(), exit_key: Some("Hyper+q".to_string()), ..cli() };
    let err = check_arguments(
        &no_command,
        |_: &Vec<String>| -> Result<(), SpawnError> { panic!("checked a missing command") },
        |_: &str| 0x71,
    )
    .unwrap_err();
    assert!(matches!(err, ArgumentError::NoCommand));
    assert!(err.message().contains("no command given"));
}

#[test]
fn a_missing_child_binary_is_rejected_before_graphics_mode() {
    let err = check_arguments(
        &Cli { exit_key: Some("Hyper+q".to_string()), ..cli() },
        |command: &Vec<String>| Err(SpawnError::NotFound { program: command[0].clone() }),
        |_: &str| -> u32 { panic!("looked a key up for nothing") },
    )
    .unwrap_err();
    assert!(matches!(err, ArgumentError::Preflight(_)));
    assert_eq!(err.message(), "failed to spawn \"/bin/true\": not found in PATH");
}

#[test]
fn an_unknown_modifier_is_rejected_before_touching_a_seat() {
    let err = check_arguments(
        &Cli { exit_key: Some("Hyper+q".to_string()), ..cli() },
        |_: &Vec<String>| Ok(()),
        |_: &str| 0x71,
    )
    .unwrap_err();
    assert!(matches!(err, ArgumentError::ExitKey(_)));
    let err = err.message();
    assert!(err.contains("unknown modifier"), "{err}");
    assert!(err.contains("Hyper"), "the error should quote the input: {err}");
}

#[test]
fn an_unknown_keysym_is_rejected_before_touching_a_seat() {
    let err = check_arguments(
        &Cli { exit_key: Some("Ctrl+NotAKey".to_string()), ..cli() },
        |_: &Vec<String>| Ok(()),
        |_: &str| 0,
    )
    .unwrap_err();
    assert!(err.message().contains("unknown keysym"));
}

#[test]
fn list_outputs_does_not_require_a_command() {
    let listing = Cli { list_outputs: true, command: Vec::new(), ..cli() };
    let checked = check_arguments(
        &listing,
        |_: &Vec<String>| -> Result<(), SpawnError> { panic!("checked a missing command") },
        |_: &str| 0,
    );
    assert!(matches!(checked, Ok(None)));
}

#[test]
fn good_arguments_give_the_binding() {
    let bound = Cli { exit_key: Some("Ctrl+q".to_string()), ..cli() };
    let checked = check_arguments(&bound, |_: &Vec<String>| Ok(()), |_: &str| 0x71);
    assert_eq!(
        checked.unwrap(),
        Some(Binding { ctrl: true, alt: false, shift: false, logo: false, keysym: 0x71 })
    );
    let checked = check_arguments(&cli(), |_: &Vec<String>| Ok(()), |_: &str| 0);
    assert_eq!(checked.unwrap(), None);
}

#[test]
fn outputs_are_listed_or_chosen() {
    let both = || vec![candidate("DP-1", false), candidate("eDP-1", true)];
    let listing = Cli { list_outputs: true, ..cli() };
    match start(&listing, both(), "seat0") {
        Startup::List(lines) => assert_eq!(
            lines,
            [
                "DP-1         disconnected  /dev/dri/card0",
                "eDP-1        connected     /dev/dri/card0",
            ]
        ),
        other => panic!("{other:?}"),
    }
    match start(&listing, Vec::new(), "seat0") {
        Startup::List(lines) => {
            assert_eq!(lines, ["no DRM connectors found on seat \"seat0\""])
        }
        other => panic!("{other:?}"),
    }
    match start(&cli(), both(), "seat0") {
        Startup::Run(chosen) => assert_eq!(chosen.name, "eDP-1"),
        other => panic!("{other:?}"),
    }
    let named = Cli { output: Some("dp-1".to_string()), ..cli() };
    match start(&named, both(), "seat0") {
        Startup::Fail(err) => assert!(err.message().contains("disconnected")),
        other => panic!("{other:?}"),
    }
}

#[test]
fn only_the_card_in_use_is_fatal_when_removed() {
    let mut k = kiosk();
    k.device_removed(8, 7);
    assert_eq!(k.exit_code, None);
    k.device_removed(7, 7);
    assert_eq!(k.exit_code, Some(1));
}

#[test]
fn a_lost_vblank_stream_is_fatal() {
    let mut k = kiosk();
    k.drm_failed();
    assert_eq!(k.exit_code, Some(1));
}

#[test]
fn a_stop_signal_is_reported_as_a_shell_would() {
    let mut k = kiosk();
    k.signalled(15);
    assert_eq!(k.exit_code, Some(143));
}

#[test]
fn the_childs_status_is_ours() {
    let mut k = kiosk();
    assert!(k.enters_loop());
    k.child_exited(42);
    // A second stop, and an exit key during teardown.
    k.signalled(15);
    k.shutdown(0);
    assert!(!k.enters_loop());
    assert_eq!(k.final_status(false), Some(42));
    assert_eq!(k.final_status(true), Some(42));
    assert_eq!(process_exit_code(k.final_status(true)), 42);
}

#[test]
fn a_failed_loop_without_a_status_is_reported() {
    let k = kiosk();
    assert_eq!(k.final_status(true), None);
    assert_eq!(k.final_status(false), Some(0));
    assert_eq!(process_exit_code(None), 1);
}

#[test]
fn a_status_no_process_can_have_is_a_failure() {
    for (status, code) in [(0, 0), (143, 143), (255, 255), (256, 1), (-1, 1), (i32::MIN, 1)] {
        assert_eq!(process_exit_code(Some(status)), code);
    }
}

#[test]
fn a_vt_switch_releases_keys_and_repaints() {
    let mut k = kiosk();
    assert_eq!(k.render().action, FrameAction::Draw);
    assert_eq!(k.frame_drawn(FrameOutcome::Visible).action, FrameAction::Queue);
    k.frame_queued(true);
    k.on_keyboard(
        KeyEvent { code: 29, state: KeyState::Pressed, time: 100 },
        &ModifiersState::default(),
        &vec![],
    );
    k.consecutive_drops = 59;
    k.submit_failures = 59;
    let releases = k.session_paused();
    assert_eq!(releases, [KeyRelease { code: 29, time: 100 }]);
    assert!(k.pressed_keys.is_empty());
    assert!(!k.backend.is_active());
    k.session_resuming();
    assert!(k.backend.is_active());
    assert_eq!(k.session_activated(true).action, FrameAction::Draw);
    assert_eq!((k.consecutive_drops, k.submit_failures), (0, 0));
}

#[test]
fn a_display_that_cannot_be_taken_back_is_fatal() {
    let mut k = kiosk();
    k.session_paused();
    assert_eq!(k.session_activated(false).action, FrameAction::Stop);
    assert_eq!(k.exit_code, Some(1));
    // Input still works on the way out.
    assert!(k.backend.is_active());
}

#[test]
fn panic_message_reads_a_literal_panic() {
    assert_eq!(panic_message(Some("boom"), None), "boom");
}

#[test]
fn panic_message_reads_a_formatted_panic() {
    assert_eq!(panic_message(None, Some("boom 7")), "boom 7");
}

#[test]
fn panic_message_falls_back_for_an_unprintable_payload() {
    assert_eq!(panic_message(None, None), "unknown panic payload");
}

#[test]
fn a_panic_is_reported_with_its_message() {
    assert_eq!(panic_report(Some("boom"), None), "compositor panicked: boom");
    assert_eq!(panic_report(None, Some("boom 7")), "compositor panicked: boom 7");
    assert_eq!(panic_report(None, None), "compositor panicked: unknown panic payload");
}
