//! From the command line to an exit status: what is checked before the screen is
//! taken, what the events of the main loop mean, and what the process exits with.

use vstd::prelude::*;

use crate::backend::discovery::{
    available, chosen, first_connected, named, select, Candidate, OutputCandidate, SelectError,
};
use crate::backend::input::KeyRelease;
use crate::child::{status_code, ExitStatus, SpawnError};
use crate::cli::{is_key_of, parse_binding, parses, Binding, BindingError, Cli};
use crate::backend::drm::note_frame;
use crate::frames::{FrameAction, FramePhase, FrameState, FrameStep};
use crate::pacing::PacerState;
use crate::sorting::views;
use crate::state::{Kiosk, KioskState};
use crate::text::{quote, quoted};

verus! {

/// Exit code for any failure of the compositor itself, as opposed to a status
/// propagated from the child.
pub const EXIT_FAILURE: u8 = 1;

/// Which input capabilities to advertise on the seat.
#[derive(Debug, Clone, Copy, PartialEq, Eq, Structural)]
pub struct Capabilities {
    pub pointer: bool,
    pub touch: bool,
}

impl Default for Capabilities {
    /// None.
    fn default() -> (caps: Self)
        ensures
            caps == (Capabilities { pointer: false, touch: false }),
    {
        Capabilities { pointer: false, touch: false }
    }
}

impl Capabilities {
    /// Fold one device's capabilities into the running total.
    ///
    /// Capabilities are a union across all devices, never a replacement, or a
    /// keyboard appearing after a mouse would clear the pointer.
    pub fn add_device(&mut self, has_pointer: bool, has_touch: bool)
        ensures
            *final(self) == (Capabilities {
                pointer: old(self).pointer || has_pointer,
                touch: old(self).touch || has_touch,
            }),
    {
        self.pointer = self.pointer || has_pointer;
        self.touch = self.touch || has_touch;
    }
}

/// The capabilities of a set of devices: whatever any of them has. Each device is
/// given by whether it is a pointer and whether it is a touch device.
pub open spec fn capabilities_of(devices: Seq<(bool, bool)>) -> Capabilities {
    Capabilities {
        pointer: exists|i: int| 0 <= i < devices.len() && (#[trigger] devices[i]).0,
        touch: exists|i: int| 0 <= i < devices.len() && (#[trigger] devices[i]).1,
    }
}

/// The pointer and touch capabilities of the initial device set.
///
/// Devices hotplugged after this point do not change the advertised capabilities: a
/// kiosk's hardware is fixed, and changing seat capabilities mid-session is a protocol
/// event most single-window clients handle poorly.
pub fn probe_capabilities(devices: &Vec<(bool, bool)>) -> (caps: Capabilities)
    ensures
        caps == capabilities_of(devices@),
{
    let mut caps = Capabilities::default();
    for i in 0..devices.len()
        invariant
            caps == capabilities_of(devices@.take(i as int)),
    {
        let device = devices[i];
        let ghost before = devices@.take(i as int);
        let ghost after = devices@.take(i + 1);
        assert(after == before.push(device));
        assert(after[i as int] == device);
        assert forall|j: int| 0 <= j < i implies #[trigger] after[j] == before[j] by {}
        assert(capabilities_of(after) == (Capabilities {
            pointer: capabilities_of(before).pointer || device.0,
            touch: capabilities_of(before).touch || device.1,
        })) by {
            if capabilities_of(before).pointer {
                let j = choose|j: int| 0 <= j < before.len() && (#[trigger] before[j]).0;
                assert(after[j].0);
            }
            if capabilities_of(before).touch {
                let j = choose|j: int| 0 <= j < before.len() && (#[trigger] before[j]).1;
                assert(after[j].1);
            }
            if capabilities_of(after).pointer && !device.0 {
                let j = choose|j: int| 0 <= j < after.len() && (#[trigger] after[j]).0;
                assert(before[j].0);
            }
            if capabilities_of(after).touch && !device.1 {
                let j = choose|j: int| 0 <= j < after.len() && (#[trigger] after[j]).1;
                assert(before[j].1);
            }
        }
        caps.add_device(device.0, device.1);
    }
    assert(devices@.take(devices.len() as int) == devices@);
    caps
}

/// The order in which devices turn up does not matter for the capabilities.
pub proof fn law_capabilities_forget_the_order(
    devices: Seq<(bool, bool)>,
    others: Seq<(bool, bool)>,
)
    requires
        devices.to_multiset() == others.to_multiset(),
    ensures
        capabilities_of(devices) == capabilities_of(others),
{
    lemma_capabilities_follow(devices, others);
    lemma_capabilities_follow(others, devices);
}

proof fn lemma_capabilities_follow(devices: Seq<(bool, bool)>, others: Seq<(bool, bool)>)
    requires
        devices.to_multiset() == others.to_multiset(),
    ensures
        capabilities_of(devices).pointer ==> capabilities_of(others).pointer,
        capabilities_of(devices).touch ==> capabilities_of(others).touch,
{
    broadcast use vstd::seq_lib::group_to_multiset_ensures;

    assert forall|i: int| 0 <= i < devices.len() implies others.contains(
        #[trigger] devices[i],
    ) by {
        assert(devices.contains(devices[i]));
        assert(devices.to_multiset().count(devices[i]) > 0);
    }
    if capabilities_of(devices).pointer {
        let i = choose|i: int| 0 <= i < devices.len() && (#[trigger] devices[i]).0;
        assert(others.contains(devices[i]));
        let j = others.index_of(devices[i]);
        assert(others[j].0);
    }
    if capabilities_of(devices).touch {
        let i = choose|i: int| 0 <= i < devices.len() && (#[trigger] devices[i]).1;
        assert(others.contains(devices[i]));
        let j = others.index_of(devices[i]);
        assert(others[j].1);
    }
}

/// Why the command line is rejected.
#[derive(Debug)]
pub enum ArgumentError {
    /// It names no application.
    NoCommand,
    /// The application cannot be started.
    Preflight(SpawnError),
    /// The exit key cannot be parsed.
    ExitKey(BindingError),
}

impl ArgumentError {
    /// What the user is told.
    pub open spec fn text(self) -> Seq<char> {
        match self {
            ArgumentError::NoCommand =>
                "no command given; usage: kiosk [OPTIONS] -- <COMMAND> [ARGS...]"@,
            ArgumentError::Preflight(err) => err.text(),
            ArgumentError::ExitKey(err) => err.text(),
        }
    }

    /// What the user is told.
    pub fn message(&self) -> (text: String)
        ensures
            text@ == self.text(),
    {
        match self {
            ArgumentError::NoCommand => crate::cli::NoCommand.message(),
            ArgumentError::Preflight(err) => err.message(),
            ArgumentError::ExitKey(err) => err.message(),
        }
    }
}

/// Check everything that needs no hardware: argument shape, whether the child binary
/// exists, and the keybind.
///
/// All of these are reported before the screen is taken, and without depending on a
/// seat being available at all. `preflight` checks the command, but not when outputs
/// are listed, which legitimately has none. Each check is made only once those before
/// it have passed.
pub fn check_arguments<
    P: FnOnce(&Vec<String>) -> Result<(), SpawnError>,
    K: FnOnce(&str) -> u32,
>(cli: &Cli, preflight: P, keysym_from_name: K) -> (checked: Result<Option<Binding>, ArgumentError>)
    requires
        !cli.list_outputs && cli.command@.len() > 0 ==> call_requires(preflight, (&cli.command,)),
        forall|key: &str|
            {
                &&& cli.list_outputs || cli.command@.len() > 0
                &&& cli.list_outputs || call_ensures(preflight, (&cli.command,), Ok(()))
                &&& cli.exit_key matches Some(spec) && is_key_of(spec@, key@)
            } ==> #[trigger] call_requires(keysym_from_name, (key,)),
    ensures
        ({
            let valid = cli.list_outputs || cli.command@.len() > 0;
            let found = cli.list_outputs || call_ensures(preflight, (&cli.command,), Ok(()));
            match checked {
                Ok(None) => valid && found && cli.exit_key is None,
                Ok(Some(binding)) => {
                    &&& valid && found
                    &&& cli.exit_key matches Some(spec)
                    &&& parses(spec@, keysym_from_name, Ok(binding))
                },
                Err(ArgumentError::NoCommand) => !valid,
                Err(ArgumentError::Preflight(err)) => valid && !cli.list_outputs && call_ensures(
                    preflight,
                    (&cli.command,),
                    Err(err),
                ),
                Err(ArgumentError::ExitKey(err)) => {
                    &&& valid && found
                    &&& cli.exit_key matches Some(spec)
                    &&& parses(spec@, keysym_from_name, Err(err))
                },
            }
        }),
{
    if let Err(_) = cli.validate() {
        return Err(ArgumentError::NoCommand);
    }
    if !cli.list_outputs {
        match preflight(&cli.command) {
            Ok(done) => {
                assert(call_ensures(preflight, (&cli.command,), Ok(done)));
            },
            Err(err) => {
                return Err(ArgumentError::Preflight(err));
            },
        }
    }
    match &cli.exit_key {
        None => Ok(None),
        Some(spec) => match parse_binding(spec.as_str(), keysym_from_name) {
            Ok(binding) => Ok(Some(binding)),
            Err(err) => Err(ArgumentError::ExitKey(err)),
        },
    }
}

/// The lines that `--list-outputs` prints.
pub open spec fn listing(candidates: Seq<Candidate>, seat: Seq<char>) -> Seq<Seq<char>> {
    if candidates.len() == 0 {
        seq!["no DRM connectors found on seat "@ + quoted(seat)]
    } else {
        candidates.map_values(|candidate: Candidate| candidate.listing())
    }
}

/// The lines that `--list-outputs` prints.
pub fn list_outputs(candidates: &Vec<OutputCandidate>, seat: &str) -> (lines: Vec<String>)
    ensures
        lines@.map_values(|line: String| line@) == listing(views(candidates@), seat@),
{
    let mut lines: Vec<String> = Vec::new();
    if candidates.len() == 0 {
        let mut line = "no DRM connectors found on seat ".to_owned();
        line.append(quote(seat).as_str());
        lines.push(line);
        assert(lines@.map_values(|line: String| line@) == seq![line@]);
        return lines;
    }
    let ghost all = listing(views(candidates@), seat@);
    for i in 0..candidates.len()
        invariant
            all == views(candidates@).map_values(|candidate: Candidate| candidate.listing()),
            lines@.map_values(|line: String| line@) == all.take(i as int),
    {
        let ghost before = lines@;
        let line = candidates[i].listing();
        lines.push(line);
        assert(lines@.map_values(|line: String| line@) == before.map_values(
            |line: String| line@,
        ).push(line@));
        assert(all.take(i + 1) == all.take(i as int).push(all[i as int]));
    }
    assert(all.take(candidates.len() as int) == all);
    lines
}

/// What to do once the outputs are known.
#[derive(Debug)]
pub enum Startup {
    /// Print these lines and exit with status 0.
    List(Vec<String>),
    /// Bring up this output.
    Run(OutputCandidate),
    /// Fail.
    Fail(SelectError),
}

/// Decide what to do once the outputs are known: list them, or choose one of them.
pub fn start(cli: &Cli, candidates: Vec<OutputCandidate>, seat: &str) -> (startup: Startup)
    ensures
        ({
            let all = views(candidates@);
            let wanted = match cli.output {
                Some(name) => Some(name@),
                None => None,
            };
            match startup {
                Startup::List(lines) => {
                    &&& cli.list_outputs
                    &&& lines@.map_values(|line: String| line@) == listing(all, seat@)
                },
                Startup::Run(candidate) => {
                    &&& !cli.list_outputs
                    &&& chosen(all, wanted) matches Some(i) && candidate@ == all[i]
                },
                Startup::Fail(SelectError::Disconnected { name, device, available: listed }) => {
                    &&& !cli.list_outputs
                    &&& wanted matches Some(sought) && named(all, sought) matches Some(i) && {
                        &&& !all[i].connected
                        &&& name@ == all[i].name
                        &&& device@ == all[i].device
                        &&& listed@ == available(all)
                    }
                },
                Startup::Fail(SelectError::Unknown { name, available: listed }) => {
                    &&& !cli.list_outputs
                    &&& wanted matches Some(sought) && {
                        &&& named(all, sought) is None
                        &&& name@ == sought
                        &&& listed@ == available(all)
                    }
                },
                Startup::Fail(SelectError::NoneConnected { available: listed }) => {
                    &&& !cli.list_outputs
                    &&& wanted is None
                    &&& first_connected(all) is None
                    &&& listed@ == available(all)
                },
            }
        }),
{
    if cli.list_outputs {
        return Startup::List(list_outputs(&candidates, seat));
    }
    let wanted: Option<&str> = match &cli.output {
        Some(name) => Some(name.as_str()),
        None => None,
    };
    match select(candidates, wanted) {
        Ok(candidate) => Startup::Run(candidate),
        Err(err) => Startup::Fail(err),
    }
}

impl Kiosk {
    /// Reading the DRM event queue failed, which means page-flip completions in that
    /// read were lost. The vblank stream is no longer trustworthy, so a pending flip
    /// would never complete and the compositor would stall silently. Exit instead, so a
    /// supervisor can restart us.
    pub fn drm_failed(&mut self)
        ensures
            final(self)@ == old(self)@.exiting(1),
    {
        self.shutdown(1);
    }

    /// A device was removed. If it is the card in use, exit: the screen would stay
    /// frozen while the process never exits.
    ///
    /// Devices are compared by number, not by path: by the time this comes the device
    /// is gone, and neither resolves to the other any more.
    pub fn device_removed(&mut self, device_id: u64, chosen_id: u64)
        ensures
            final(self)@ == (if device_id == chosen_id {
                old(self)@.exiting(1)
            } else {
                old(self)@
            }),
    {
        if device_id == chosen_id {
            self.shutdown(1);
        }
    }

    /// A signal asked us to stop. The status follows shell convention, matching how the
    /// child's own death by a signal is reported, so a supervisor sees a consistent
    /// status.
    pub fn signalled(&mut self, signal: i32)
        requires
            128 + signal <= i32::MAX,
        ensures
            final(self)@ == old(self)@.exiting((128 + signal) as i32),
    {
        self.shutdown(128 + signal);
    }

    /// The child exited, and so do we, with its status.
    pub fn child_exited(&mut self, code: i32)
        ensures
            final(self)@ == old(self)@.exiting(code),
    {
        self.shutdown(code);
    }

    /// The session was paused: another VT took the screen. Returns the keys to release,
    /// because the release of the chord that switched goes to the incoming VT.
    pub fn session_paused(&mut self) -> (releases: Vec<KeyRelease>)
        ensures
            releases@ == (if old(self)@.keyboard {
                old(self)@.pressed_keys.map_values(
                    |code: u32| KeyRelease { code, time: old(self)@.last_input_time },
                )
            } else {
                Seq::empty()
            }),
            final(self)@ == (KioskState {
                pressed_keys: if old(self)@.keyboard {
                    Seq::empty()
                } else {
                    old(self)@.pressed_keys
                },
                frames: old(self)@.frames.paused(),
                ..old(self)@
            }),
            old(self)@.frames.phase == FramePhase::Idle && old(self)@.well_formed()
                ==> final(self)@.well_formed(),
    {
        let releases = self.release_all_keys();
        self.backend.pause();
        releases
    }

    /// The session was activated, before the display itself is taken back.
    pub fn session_resuming(&mut self)
        ensures
            final(self)@ == (KioskState {
                frames: FrameState {
                    pacer: PacerState { active: true, damaged: true, pending_flip: false },
                    ..old(self)@.frames
                },
                ..old(self)@
            }),
    {
        self.backend.resume();
    }

    /// The session was activated, where `resumed` says whether the display could be
    /// taken back.
    ///
    /// Frames dropped while it was being revoked are not evidence of a permanently
    /// broken display, so they must not accumulate across VT switches. A display that
    /// cannot be taken back cannot be driven any more: exiting restores the screen and
    /// the VT, which is strictly better than a live process holding a display it cannot
    /// paint.
    pub fn session_activated(&mut self, resumed: bool) -> (step: FrameStep)
        requires
            old(self)@.frames.phase == FramePhase::Idle,
        ensures
            (final(self)@.frames, step) == old(self)@.frames.activated(resumed),
            final(self)@ == (KioskState { frames: final(self)@.frames, ..old(self)@ }),
            old(self)@.well_formed() ==> final(self)@.well_formed(),
    {
        self.session_resuming();
        if resumed {
            note_frame(&mut self.consecutive_drops, true);
            note_frame(&mut self.submit_failures, true);
            self.render()
        } else {
            self.shutdown(1);
            FrameStep::only(FrameAction::Stop)
        }
    }

    /// Is the event loop to be entered, once the first frame was drawn?
    ///
    /// Entering it would discard a shutdown requested by the first frame, while its
    /// status would stay recorded and override the child's real status later.
    pub fn enters_loop(&self) -> (enters: bool)
        ensures
            enters == self@.frames.exit_code is None,
    {
        self.exit_code.is_none()
    }

    /// The status to exit with after the event loop, or nothing if its own failure is to
    /// be reported.
    ///
    /// A recorded status outranks a loop error: kiosk is transparent in a script, so a
    /// teardown error must not rewrite a real `exit 42` into the ambiguous `1`.
    pub fn final_status(&self, loop_failed: bool) -> (status: Option<i32>)
        ensures
            status == (match self@.frames.exit_code {
                Some(code) => Some(code),
                None => if loop_failed {
                    None
                } else {
                    Some(0)
                },
            }),
    {
        match self.exit_code {
            Some(code) => Some(code),
            None => if loop_failed {
                None
            } else {
                Some(0)
            },
        }
    }
}

/// The exit code of a process with that status, or with a failure of its own.
pub open spec fn process_code(status: Option<int>) -> int {
    match status {
        Some(code) => if 0 <= code <= 255 {
            code
        } else {
            EXIT_FAILURE as int
        },
        None => EXIT_FAILURE as int,
    }
}

/// The exit code of the process: the status, if it is one that a process can exit
/// with, and otherwise that of a failure.
pub fn process_exit_code(status: Option<i32>) -> (code: u8)
    ensures
        code == process_code(
            match status {
                Some(code) => Some(code as int),
                None => None,
            },
        ),
{
    match status {
        Some(code) => {
            if 0 <= code && code <= 255 {
                code as u8
            } else {
                EXIT_FAILURE
            }
        },
        None => EXIT_FAILURE,
    }
}

/// Kiosk is transparent: whether the child exits with a code or dies by a signal, the
/// process exits with that code, or with 128 and the number of the signal, whatever
/// asks for another status afterwards and whether or not the event loop fails.
pub proof fn law_exit_status_is_transparent(
    kiosk: KioskState,
    status: ExitStatus,
    later: i32,
)
    requires
        kiosk.frames.exit_code is None,
        status.code matches Some(code) ==> 0 <= code <= 255,
        status.code is None ==> (status.signal matches Some(signal) && 1 <= signal <= 127),
    ensures
        ({
            let exited = kiosk.exiting(status_code(status) as i32).exiting(later);
            &&& exited.frames.exit_code matches Some(code) && process_code(Some(code as int)) == (
            match status.code {
                Some(code) => code as int,
                None => 128 + status.signal->0,
            })
        }),
{
}

/// The message of a panic: a literal panic carries its text one way and a formatted one
/// another; anything else has no printable form.
pub open spec fn message_of(literal: Option<&str>, formatted: Option<&str>) -> Seq<char> {
    match literal {
        Some(text) => text@,
        None => match formatted {
            Some(text) => text@,
            None => "unknown panic payload"@,
        },
    }
}

/// Best-effort extraction of a panic payload's message.
pub fn panic_message(literal: Option<&str>, formatted: Option<&str>) -> (message: String)
    ensures
        message@ == message_of(literal, formatted),
{
    match literal {
        Some(text) => text.to_owned(),
        None => match formatted {
            Some(text) => text.to_owned(),
            None => "unknown panic payload".to_owned(),
        },
    }
}

/// How a panic inside the event loop is reported.
pub fn panic_report(literal: Option<&str>, formatted: Option<&str>) -> (text: String)
    ensures
        text@ == "compositor panicked: "@ + message_of(literal, formatted),
{
    let mut text = "compositor panicked: ".to_owned();
    text.append(panic_message(literal, formatted).as_str());
    text
}

} // verus!
