//! The application and the exit status: how it is started, whom to signal, and what the
//! process exits with.

use vstd::prelude::*;

use crate::child::{
    console_safe_stdio, directories, directory, exit_code_of, preflight, search_path_from,
    withheld_variables, ChildProcess, ExitStatus, SpawnError, SpawnPlan, Stream, WaitStep, Waited,
};
use crate::cli::{Cli, ModifiersState, NoCommand};
use crate::laws::frames::same_but_for_frames;
use crate::run::{
    panic_message, panic_report, probe_capabilities, process_exit_code, Capabilities,
};
use crate::state::{latch_exit_code, Kiosk, KioskState};
use crate::text::split;

verus! {

/// Is `code` recorded in `after` unless `before` had a status already, with nothing else
/// changed?
pub open spec fn records(before: KioskState, code: int, after: KioskState) -> bool {
    &&& before.frames.exit_code is Some ==> after.frames.exit_code == before.frames.exit_code
    &&& before.frames.exit_code is None ==> (after.frames.exit_code matches Some(status) && status
        == code)
    &&& after.frames.pacer == before.frames.pacer
    &&& after.frames.phase == before.frames.phase
    &&& after.frames.retry_armed == before.frames.retry_armed
    &&& after.frames.drops == before.frames.drops
    &&& after.frames.submit_failures == before.frames.submit_failures
    &&& same_but_for_frames(before, after)
}

/// Whoever ends the compositor first decides its status: the child by its own, a signal by
/// 128 and its number, a lost card and a broken event queue by 1.
pub proof fn law_who_decides_the_status()
    ensures
        forall|kiosk: &mut Kiosk, code: i32, done: ()| #[trigger]
            call_ensures(Kiosk::shutdown, (kiosk, code), done) ==> records(
                (*kiosk)@,
                code as int,
                final(kiosk)@,
            ),
        forall|kiosk: &mut Kiosk, code: i32, done: ()| #[trigger]
            call_ensures(Kiosk::child_exited, (kiosk, code), done) ==> records(
                (*kiosk)@,
                code as int,
                final(kiosk)@,
            ),
        forall|kiosk: &mut Kiosk, signal: i32, done: ()| #[trigger]
            call_ensures(Kiosk::signalled, (kiosk, signal), done) && signal <= i32::MAX - 128
                ==> records((*kiosk)@, 128 + signal, final(kiosk)@),
        forall|kiosk: &mut Kiosk, done: ()| #[trigger]
            call_ensures(Kiosk::drm_failed, (kiosk,), done) ==> records(
                (*kiosk)@,
                1,
                final(kiosk)@,
            ),
        forall|kiosk: &mut Kiosk, removed: u64, chosen: u64, done: ()| #[trigger]
            call_ensures(Kiosk::device_removed, (kiosk, removed, chosen), done) ==> {
                &&& removed == chosen ==> records((*kiosk)@, 1, final(kiosk)@)
                &&& removed != chosen ==> final(kiosk)@ == (*kiosk)@
            },
        forall|current: &mut Option<i32>, code: i32, done: ()| #[trigger]
            call_ensures(latch_exit_code, (current, code), done) ==> {
                &&& *current is Some ==> *final(current) == *current
                &&& *current is None ==> *final(current) == Some(code)
            },
{
}

/// The event loop is entered exactly while no status is recorded; after it, a recorded
/// status is final, and without one a loop that went well is a success.
pub proof fn law_a_recorded_status_is_final(
    kiosk: &Kiosk,
    failed: bool,
    enters: bool,
    status: Option<i32>,
)
    requires
        call_ensures(Kiosk::enters_loop, (kiosk,), enters),
        call_ensures(Kiosk::final_status, (kiosk, failed), status),
    ensures
        enters <==> kiosk.exit_code is None,
        kiosk.exit_code is Some ==> status == kiosk.exit_code,
        kiosk.exit_code is None && failed ==> status is None,
        kiosk.exit_code is None && !failed ==> status == Some(0i32),
{
}

/// The process exits with the status where that is one a process can have, and with 1
/// otherwise.
pub proof fn law_what_the_process_exits_with(status: Option<i32>, code: u8)
    requires
        call_ensures(process_exit_code, (status,), code),
    ensures
        status matches Some(wanted) ==> if 0 <= wanted <= 255 {
            code == wanted
        } else {
            code == 1
        },
        status is None ==> code == 1,
{
}

/// A child's own code is passed on, and death by a signal is 128 and its number; a child
/// whose status cannot be had is 125.
pub proof fn law_what_a_child_exits_with()
    ensures
        forall|status: &ExitStatus, code: i32| #[trigger]
            call_ensures(exit_code_of, (status,), code) ==> {
                &&& status.code matches Some(own) ==> code == own
                &&& status.code is None && status.signal is None ==> code == 128
                &&& status.code is None ==> (status.signal matches Some(signal) ==> code == 128
                    + signal)
            },
        forall|child: &mut ChildProcess, waited: Option<ExitStatus>, code: i32| #[trigger]
            call_ensures(ChildProcess::reap, (child, waited), code) ==> {
                &&& final(child).is_reaped()
                &&& final(child).pid() == (*child).pid()
                &&& waited is None ==> code == 125
                &&& waited matches Some(status) ==> {
                    &&& status.code matches Some(own) ==> code == own
                    &&& status.code is None && status.signal is None ==> code == 128
                    &&& status.code is None ==> (status.signal matches Some(signal) ==> code
                        == 128 + signal)
                }
            },
{
}

/// A child that was started has the process id it was given, and is signalled under it
/// until it was waited for, and never after.
pub proof fn law_whom_to_signal()
    ensures
        forall|pid: u32, child: Result<ChildProcess, SpawnError>| #[trigger]
            call_ensures(ChildProcess::started, (pid,), child) ==> match child {
                Ok(started) => pid != 0 && started.pid() == pid && !started.is_reaped(),
                Err(err) => pid == 0 && err is InvalidPid,
            },
        forall|child: &ChildProcess, id: u32| #[trigger]
            call_ensures(ChildProcess::id, (child,), id) ==> id == child.pid(),
        forall|child: &ChildProcess, target: Option<u32>| #[trigger]
            call_ensures(ChildProcess::terminate, (child,), target) ==> match target {
                Some(pid) => !child.is_reaped() && pid == child.pid() && pid != 0,
                None => child.is_reaped() || child.pid() == 0,
            },
{
}

/// A signalled child is waited for until it exits or two seconds are over, and each wait
/// is for exactly the time that is left.
pub proof fn law_how_long_a_child_is_waited_for()
    ensures
        forall|child: &mut ChildProcess, waited: Waited, elapsed: u64, step: WaitStep| #[trigger]
            call_ensures(ChildProcess::wait_for_exit, (child, waited, elapsed), step) ==> {
                &&& final(child).pid() == (*child).pid()
                &&& final(child).is_reaped() <==> (*child).is_reaped() || waited is Exited
                &&& match waited {
                    Waited::Exited(status) => step == WaitStep::Done(status),
                    Waited::Failed => step == WaitStep::Unknown,
                    Waited::Running => if elapsed >= 2_000_000_000 {
                        step == WaitStep::GiveUp
                    } else {
                        step matches WaitStep::Poll { seconds, nanoseconds } && {
                            &&& seconds * 1_000_000_000 + nanoseconds + elapsed == 2_000_000_000
                            &&& nanoseconds < 1_000_000_000
                        }
                    },
                }
            },
{
}

/// A stream that is a console is kept from the child, and any other is passed on.
pub proof fn law_which_streams_are_passed_on(is_console: bool, stream: Stream)
    requires
        call_ensures(console_safe_stdio, (is_console,), stream),
    ensures
        stream == Stream::Null <==> is_console,
        stream == Stream::Inherit <==> !is_console,
{
}

/// The child is the command as it was given, on our display, without the variables that
/// must not leak, in a session of its own, with nothing to read and no console to write
/// to, and can be signalled.
pub proof fn law_how_the_child_is_started(
    command: &Vec<String>,
    display: &str,
    stdout_is_console: bool,
    stderr_is_console: bool,
    plan: Result<SpawnPlan, SpawnError>,
)
    requires
        call_ensures(
            ChildProcess::spawn,
            (command, display, stdout_is_console, stderr_is_console),
            plan,
        ),
    ensures
        match plan {
            Ok(plan) => {
                &&& command@.len() > 0
                &&& plan.program@ == command@[0]@
                &&& plan.args@.len() == command@.len() - 1
                &&& forall|i: int|
                    0 <= i < plan.args@.len() ==> (#[trigger] plan.args@[i])@ == command@[i + 1]@
                &&& plan.stdin == Stream::Null
                &&& plan.stdout == Stream::Null <==> stdout_is_console
                &&& plan.stderr == Stream::Null <==> stderr_is_console
                &&& plan.display_variable@ == "WAYLAND_DISPLAY"@
                &&& plan.display@ == display@
                &&& plan.removed@.len() == 4
                &&& plan.removed@[0]@ == "DISPLAY"@
                &&& plan.removed@[1]@ == "LD_PRELOAD"@
                &&& plan.removed@[2]@ == "LD_LIBRARY_PATH"@
                &&& plan.removed@[3]@ == "LD_AUDIT"@
                &&& plan.own_session
                &&& plan.unblocked_signals@.len() == 2
                &&& plan.unblocked_signals@.contains(15)
                &&& plan.unblocked_signals@.contains(2)
            },
            Err(err) => err is EmptyCommand && command@.len() == 0,
        },
{
    if let Ok(plan) = plan {
        let args = crate::child::texts(plan.args@);
        let all = crate::child::texts(command@);
        assert(args == all.skip(1));
        assert(args.len() == plan.args@.len() && all.len() == command@.len());
        assert forall|i: int| 0 <= i < plan.args@.len() implies (#[trigger] plan.args@[i])@
            == command@[i + 1]@ by {
            assert(args[i] == plan.args@[i]@);
            assert(all[i + 1] == command@[i + 1]@);
        }
        let removed = crate::child::texts(plan.removed@);
        assert(removed == withheld_variables());
        assert(removed.len() == plan.removed@.len());
        assert(removed[0] == plan.removed@[0]@);
        assert(removed[1] == plan.removed@[1]@);
        assert(removed[2] == plan.removed@[2]@);
        assert(removed[3] == plan.removed@[3]@);
        assert(plan.unblocked_signals@[0] == 15 && plan.unblocked_signals@[1] == 2);
    }
}

/// The directories of a search path are what stands between its colons, with `.` for
/// nothing; without a path they are `/bin` and `/usr/bin`.
pub proof fn law_which_directories_are_searched(value: Option<Vec<u8>>, dirs: Vec<Vec<u8>>)
    requires
        call_ensures(search_path_from, (value,), dirs),
    ensures
        ({
            let path = match value {
                Some(path) => path@,
                None => Seq::<u8>::empty(),
            };
            if path.len() == 0 {
                &&& dirs@.len() == 2
                &&& dirs@[0]@ == seq![0x2fu8, 0x62, 0x69, 0x6e]
                &&& dirs@[1]@ == seq![0x2fu8, 0x75, 0x73, 0x72, 0x2f, 0x62, 0x69, 0x6e]
            } else {
                let named = split(path, 0x3au8);
                &&& dirs@.len() == named.len()
                &&& forall|i: int|
                    0 <= i < dirs@.len() ==> (#[trigger] dirs@[i])@ == (if named[i].len() == 0 {
                        seq![0x2eu8]
                    } else {
                        named[i]
                    })
            }
        }),
{
    let found = crate::child::contents(dirs@);
    assert(found.len() == dirs@.len());
    assert forall|i: int| 0 <= i < dirs@.len() implies (#[trigger] dirs@[i])@ == found[i] by {}
    let path = match value {
        Some(path) => path@,
        None => Seq::<u8>::empty(),
    };
    if path.len() > 0 {
        let named = split(path, 0x3au8);
        assert(found == named.map_values(|dir: Seq<u8>| directory(dir)));
    } else {
        assert(found == directories(None));
        assert(found[0] == dirs@[0]@ && found[1] == dirs@[1]@);
    }
}

/// A command given by its path has to be an executable file; any other has to be found in
/// one of the directories. Nothing else is asked for.
pub proof fn law_which_commands_can_be_started<
    F: Fn(&str) -> bool,
    G: Fn(&Vec<u8>, &str) -> bool,
>(
    command: &Vec<String>,
    dirs: &Vec<Vec<u8>>,
    is_executable: F,
    is_executable_in: G,
    checked: Result<(), SpawnError>,
)
    requires
        call_ensures(
            preflight::<F, G>,
            (command, dirs, is_executable, is_executable_in),
            checked,
        ),
    ensures
        command@.len() == 0 ==> (checked matches Err(err) && err is EmptyCommand),
        command@.len() > 0 && command@[0]@.contains('/') ==> match checked {
            Ok(()) => exists|path: &str|
                path@ == command@[0]@ && #[trigger] call_ensures(is_executable, (path,), true),
            Err(SpawnError::NotExecutable { program }) => program@ == command@[0]@ && exists|
                path: &str,
            |
                path@ == command@[0]@ && #[trigger] call_ensures(is_executable, (path,), false),
            Err(_) => false,
        },
        command@.len() > 0 && !command@[0]@.contains('/') ==> match checked {
            Ok(()) => exists|i: int, name: &str|
                0 <= i < dirs@.len() && name@ == command@[0]@ && #[trigger] call_ensures(
                    is_executable_in,
                    (&dirs@[i], name),
                    true,
                ),
            Err(SpawnError::NotFound { program }) => program@ == command@[0]@ && exists|name: &str|
                #[trigger] name@ == command@[0]@ && forall|i: int|
                    0 <= i < dirs@.len() ==> call_ensures(
                        is_executable_in,
                        (&#[trigger] dirs@[i], name),
                        false,
                    ),
            Err(_) => false,
        },
{
    if command@.len() > 0 {
        let program = command@[0]@;
        if program.contains('/') {
            assert(program[program.index_of('/')] == '/');
            assert(crate::child::has_slash(program));
        } else if crate::child::has_slash(program) {
            let i = choose|i: int| 0 <= i < program.len() && #[trigger] program[i] == '/';
            assert(program.contains('/'));
        }
    }
}

/// What the user is told where the application cannot be started.
pub proof fn law_what_spawn_failures_say(err: &SpawnError, text: String)
    requires
        call_ensures(SpawnError::message, (err,), text),
    ensures
        text@ == (match *err {
            SpawnError::EmptyCommand => "internal error: empty command"@,
            SpawnError::NotExecutable { program } => "failed to spawn "@ + crate::text::quoted(
                program@,
            ) + ": not an executable file"@,
            SpawnError::NotFound { program } => "failed to spawn "@ + crate::text::quoted(program@)
                + ": not found in PATH"@,
            SpawnError::InvalidPid => "internal error: child reported an invalid pid"@,
        }),
{
}

/// A command is needed, except to list the outputs.
pub proof fn law_a_command_is_needed(cli: &Cli, valid: Result<(), NoCommand>)
    requires
        call_ensures(Cli::validate, (cli,), valid),
    ensures
        valid is Err <==> !cli.list_outputs && cli.command@.len() == 0,
{
}

/// What the user is told who gave no command.
pub proof fn law_what_a_missing_command_says(err: &NoCommand, text: String)
    requires
        call_ensures(NoCommand::message, (err,), text),
    ensures
        text@ == "no command given; usage: kiosk [OPTIONS] -- <COMMAND> [ARGS...]"@,
{
}

/// The seat has whatever any of the devices has, and nothing that none has.
pub proof fn law_the_seat_has_what_any_device_has()
    ensures
        forall|devices: &Vec<(bool, bool)>, caps: Capabilities| #[trigger]
            call_ensures(probe_capabilities, (devices,), caps) ==> {
                &&& caps.pointer <==> exists|i: int|
                    0 <= i < devices@.len() && (#[trigger] devices@[i]).0
                &&& caps.touch <==> exists|i: int|
                    0 <= i < devices@.len() && (#[trigger] devices@[i]).1
            },
        forall|caps: &mut Capabilities, pointer: bool, touch: bool, done: ()| #[trigger]
            call_ensures(Capabilities::add_device, (caps, pointer, touch), done) ==> {
                &&& final(caps).pointer <==> (*caps).pointer || pointer
                &&& final(caps).touch <==> (*caps).touch || touch
            },
{
}

/// A panic is reported with its message, whichever way that was carried.
pub proof fn law_what_a_panic_says(literal: Option<&str>, formatted: Option<&str>, text: String)
    ensures
        call_ensures(panic_message, (literal, formatted), text) ==> text@ == (match literal {
            Some(said) => said@,
            None => match formatted {
                Some(said) => said@,
                None => "unknown panic payload"@,
            },
        }),
        call_ensures(panic_report, (literal, formatted), text) ==> text@
            == "compositor panicked: "@ + (match literal {
            Some(said) => said@,
            None => match formatted {
                Some(said) => said@,
                None => "unknown panic payload"@,
            },
        }),
{
}

/// By default there are no devices, and nothing is held.
pub proof fn law_defaults_are_empty(caps: Capabilities, mods: ModifiersState)
    ensures
        call_ensures(Capabilities::default, (), caps) ==> !caps.pointer && !caps.touch,
        call_ensures(ModifiersState::default, (), mods) ==> {
            &&& !mods.ctrl && !mods.alt && !mods.shift && !mods.logo
            &&& !mods.caps_lock && !mods.num_lock
            &&& !mods.iso_level3_shift && !mods.iso_level5_shift
        },
{
}

} // verus!
