use kiosk::child::{
    console_safe_stdio, exit_code_of, preflight, search_path_from, ChildProcess, ExitStatus,
    SpawnError, Stream, WaitStep, Waited, REAP_FAILURE_STATUS, TERMINATE_GRACE_NS,
};

fn exited(code: i32) -> ExitStatus {
    ExitStatus { code: Some(code), signal: None }
}

fn killed(signal: i32) -> ExitStatus {
    ExitStatus { code: None, signal: Some(signal) }
}

fn child() -> ChildProcess {
    ChildProcess::started(1234).unwrap()
}

fn command(words: &[&str]) -> Vec<String> {
    words.iter().map(|word| word.to_string()).collect()
}

/// A machine with `/bin/sh` and a file that is not executable.
fn check(words: &[&str]) -> Result<(), SpawnError> {
    let dirs = search_path_from(Some(b"/usr/local/bin:/bin".to_vec()));
    preflight(
        &command(words),
        &dirs,
        |path: &str| path == "/bin/sh",
        |dir: &Vec<u8>, name: &str| dir.as_slice() == b"/bin" && name == "sh",
    )
}

#[test]
fn spawning_an_empty_command_is_an_internal_error() {
    let err = ChildProcess::spawn(&Vec::new(), "wayland-test-0", false, false).unwrap_err();
    assert!(matches!(err, SpawnError::EmptyCommand));
    assert_eq!(err.message(), "internal error: empty command");
}

#[test]
fn a_successful_child_propagates_zero() {
    assert_eq!(child().reap(Some(exited(0))), 0);
}

#[test]
fn a_failing_child_propagates_its_code_verbatim() {
    assert_eq!(child().reap(Some(exited(42))), 42);
}

#[test]
fn the_highest_normal_exit_code_survives() {
    assert_eq!(child().reap(Some(exited(255))), 255);
}

#[test]
fn a_child_killed_by_sigkill_reports_137() {
    assert_eq!(child().reap(Some(killed(9))), 128 + 9);
}

#[test]
fn a_child_killed_by_sigterm_reports_143() {
    assert_eq!(child().reap(Some(killed(15))), 128 + 15);
}

#[test]
fn a_child_that_segfaults_reports_139() {
    assert_eq!(child().reap(Some(killed(11))), 128 + 11);
}

#[test]
fn a_child_that_cannot_be_reaped_reports_125() {
    assert_eq!(child().reap(None), 125);
}

#[test]
fn the_child_receives_our_wayland_display() {
    let plan =
        ChildProcess::spawn(&command(&["/bin/sh", "-c", "true"]), "wayland-test-7", false, false)
            .unwrap();
    assert_eq!(plan.program, "/bin/sh");
    assert_eq!(plan.args, ["-c", "true"]);
    assert_eq!(plan.display_variable, "WAYLAND_DISPLAY");
    assert_eq!(plan.display, "wayland-test-7");
}

#[test]
fn an_inherited_x11_display_is_removed() {
    let plan = ChildProcess::spawn(&command(&["app"]), "wayland-test-0", false, false).unwrap();
    assert!(plan.removed.contains(&"DISPLAY".to_string()), "DISPLAY leaked into the child");
}

#[test]
fn loader_overrides_are_not_inherited() {
    let plan = ChildProcess::spawn(&command(&["app"]), "wayland-test-0", false, false).unwrap();
    for name in ["LD_PRELOAD", "LD_LIBRARY_PATH", "LD_AUDIT"] {
        assert!(plan.removed.contains(&name.to_string()), "{name} leaked into the child");
    }
    assert_eq!(plan.removed.len(), 4);
}

#[test]
fn the_child_gets_its_own_session() {
    let plan = ChildProcess::spawn(&command(&["app"]), "wayland-test-0", false, false).unwrap();
    assert!(plan.own_session);
    // It can be asked to stop, though we block those signals ourselves.
    assert_eq!(plan.unblocked_signals, [15, 2]);
}

#[test]
fn a_console_stream_is_replaced_but_a_redirected_one_is_kept() {
    // A console fd is a VT-switching capability; a pipe or file is just logging.
    assert_eq!(console_safe_stdio(true), Stream::Null);
    assert_eq!(console_safe_stdio(false), Stream::Inherit);
    let plan = ChildProcess::spawn(&command(&["app"]), "wayland-test-0", true, false).unwrap();
    assert_eq!(plan.stdin, Stream::Null);
    assert_eq!(plan.stdout, Stream::Null);
    assert_eq!(plan.stderr, Stream::Inherit);
    let plan = ChildProcess::spawn(&command(&["app"]), "wayland-test-0", false, true).unwrap();
    assert_eq!((plan.stdout, plan.stderr), (Stream::Inherit, Stream::Null));
}

#[test]
fn a_child_without_a_pid_is_an_internal_error() {
    let err = ChildProcess::started(0).unwrap_err();
    assert!(matches!(err, SpawnError::InvalidPid));
    assert_eq!(err.message(), "internal error: child reported an invalid pid");
    assert_eq!(child().id(), 1234);
    assert_eq!(ChildProcess::started(1).unwrap().id(), 1);
}

#[test]
fn terminate_kills_a_child_that_honours_sigterm() {
    let mut child = child();
    assert_eq!(child.terminate(), Some(1234));
    assert_eq!(
        child.wait_for_exit(Waited::Running, 0),
        WaitStep::Poll { seconds: 2, nanoseconds: 0 }
    );
    assert_eq!(
        child.wait_for_exit(Waited::Exited(killed(15)), 1_000),
        WaitStep::Done(killed(15))
    );
    // It was waited for, so its pid is not ours to signal any more.
    assert_eq!(child.terminate(), None);
}

#[test]
fn terminate_does_not_block_on_a_child_that_ignores_sigterm() {
    let mut child = child();
    // Bounded, but it must actually wait.
    assert_eq!(
        child.wait_for_exit(Waited::Running, 250_000_000),
        WaitStep::Poll { seconds: 1, nanoseconds: 750_000_000 }
    );
    assert_eq!(
        child.wait_for_exit(Waited::Running, TERMINATE_GRACE_NS - 1),
        WaitStep::Poll { seconds: 0, nanoseconds: 1 }
    );
    assert_eq!(child.wait_for_exit(Waited::Running, TERMINATE_GRACE_NS), WaitStep::GiveUp);
    assert_eq!(child.wait_for_exit(Waited::Running, u64::MAX), WaitStep::GiveUp);
    assert_eq!(child.wait_for_exit(Waited::Failed, 0), WaitStep::Unknown);
    assert_eq!(TERMINATE_GRACE_NS, 2_000 * 1_000_000);
}

/// The guard that keeps `terminate` from signalling a recycled pid.
#[test]
fn terminate_after_reap_sends_no_signal() {
    let mut child = child();
    assert_eq!(child.reap(Some(exited(0))), 0);
    // Must be a no-op: the pid may already belong to someone else.
    assert_eq!(child.terminate(), None);
}

#[test]
fn reaping_twice_is_idempotent_and_does_not_hang() {
    let mut child = child();
    assert_eq!(child.reap(Some(exited(3))), 3);
    assert_eq!(child.reap(Some(exited(3))), 3);
}

#[test]
fn an_unset_path_falls_back_to_the_execvp_default() {
    // The search uses a default when PATH is unset or empty; treating it as empty
    // would reject a command the spawn would have run.
    let default = vec![b"/bin".to_vec(), b"/usr/bin".to_vec()];
    assert_eq!(search_path_from(None), default);
    assert_eq!(search_path_from(Some(Vec::new())), default);
}

#[test]
fn an_empty_path_component_means_the_current_directory() {
    assert_eq!(
        search_path_from(Some(b"/a::/b".to_vec())),
        vec![b"/a".to_vec(), b".".to_vec(), b"/b".to_vec()]
    );
    assert_eq!(search_path_from(Some(b":".to_vec())), vec![b".".to_vec(), b".".to_vec()]);
    assert_eq!(search_path_from(Some(b"\xff".to_vec())), vec![b"\xff".to_vec()]);
}

#[test]
fn preflight_accepts_an_executable_absolute_path() {
    check(&["/bin/sh"]).unwrap();
}

#[test]
fn preflight_accepts_a_bare_name_on_path() {
    check(&["sh"]).unwrap();
}

#[test]
fn preflight_rejects_a_missing_absolute_path() {
    let err = check(&["/nonexistent/kiosk-xyz"]).unwrap_err();
    assert!(err.message().contains("kiosk-xyz"));
}

#[test]
fn preflight_rejects_a_name_not_on_path() {
    let err = check(&["kiosk-rs-no-such-binary-xyz"]).unwrap_err();
    assert!(matches!(err, SpawnError::NotFound { .. }));
    assert!(err.message().contains("not found in PATH"));
    assert_eq!(
        err.message(),
        "failed to spawn \"kiosk-rs-no-such-binary-xyz\": not found in PATH"
    );
}

#[test]
fn preflight_rejects_a_non_executable_file() {
    let err = check(&["/etc/hostname"]).unwrap_err();
    assert!(matches!(err, SpawnError::NotExecutable { .. }));
    assert!(err.message().contains("not an executable file"));
    assert_eq!(err.message(), "failed to spawn \"/etc/hostname\": not an executable file");
}

#[test]
fn preflight_rejects_an_empty_command() {
    assert!(matches!(check(&[]), Err(SpawnError::EmptyCommand)));
}

#[test]
fn exit_code_mapping_covers_both_status_kinds() {
    assert_eq!(exit_code_of(&exited(0)), 0);
    assert_eq!(exit_code_of(&exited(42)), 42);
    assert_eq!(exit_code_of(&exited(255)), 255);
    assert_eq!(exit_code_of(&killed(9)), 137);
    assert_eq!(exit_code_of(&killed(15)), 143);
    assert_eq!(exit_code_of(&killed(11)), 139);
    assert_eq!(exit_code_of(&ExitStatus { code: None, signal: None }), 128);
}

#[test]
fn the_reap_failure_status_cannot_be_confused_with_a_child_status() {
    // A child can produce 0-255 normally and 128+n on a signal; 125 must not
    // collide with a plausible real status the way 1 did.
    assert_eq!(REAP_FAILURE_STATUS, 125);
    assert_ne!(REAP_FAILURE_STATUS, 1);
}
