//! Child process lifecycle.
//!
//! The compositor's lifetime is the child's: when the child exits, the
//! compositor exits with its status.
//!
//! Starting, signalling and waiting for processes is the caller's; what to start, whom
//! to signal and how long to wait is decided here.

use vstd::prelude::*;

use crate::text::{
    characters, lemma_split_is_not_empty, pieces_between, quote, quoted, split,
};

verus! {

/// How long [`ChildProcess::terminate`] waits for a signalled child before giving up
/// on it, in nanoseconds: two seconds.
///
/// Bounded rather than unbounded: a child that ignores `SIGTERM` must not hang
/// shutdown, but a child that honours it has to be given the time to.
pub const TERMINATE_GRACE_NS: u64 = 2_000_000_000;

/// Exit status used when the child cannot be reaped at all.
///
/// 125 is the convention `env` and `timeout` use for "the tool itself failed". It
/// cannot be distinct from *every* status a child can produce — a child may exit 125
/// too — but it is distinct from the likely ones (0, 1, and 128+n), which is enough
/// for a script to tell this apart from an ordinary failure.
pub const REAP_FAILURE_STATUS: i32 = 125;

/// How a child ended: with a code, or by a signal.
#[derive(Debug, Clone, Copy, PartialEq, Eq, Structural)]
pub struct ExitStatus {
    pub code: Option<i32>,
    pub signal: Option<i32>,
}

/// The code to exit with after a child that ended like that.
pub open spec fn status_code(status: ExitStatus) -> int {
    match status.code {
        Some(code) => code as int,
        None => match status.signal {
            Some(signal) => 128 + signal,
            None => 128,
        },
    }
}

/// Map a child's exit status onto the code this process should exit with.
///
/// A normal exit propagates verbatim. Death by signal maps to `128 + signum`,
/// matching shell convention, so a script wrapping the compositor sees what it
/// would have seen wrapping the application directly. A status with neither is taken
/// for signal 0.
pub fn exit_code_of(status: &ExitStatus) -> (code: i32)
    requires
        status_code(*status) <= i32::MAX,
    ensures
        code == status_code(*status),
{
    if let Some(code) = status.code {
        return code;
    }
    let signal: i32 = match status.signal {
        Some(signal) => signal,
        None => 0,
    };
    128 + signal
}

/// What a standard stream of the child is connected to.
#[derive(Debug, Clone, Copy, PartialEq, Eq, Structural)]
pub enum Stream {
    /// `/dev/null`.
    Null,
    /// Whatever ours is connected to.
    Inherit,
}

/// `/dev/null` for a console stream, inherit for anything else.
pub fn console_safe_stdio(is_console: bool) -> (stream: Stream)
    ensures
        stream == (if is_console {
            Stream::Null
        } else {
            Stream::Inherit
        }),
{
    if is_console {
        Stream::Null
    } else {
        Stream::Inherit
    }
}

/// Why no child was started.
#[derive(Debug)]
pub enum SpawnError {
    /// There is no program to start.
    EmptyCommand,
    /// The program was given by its path, and that is no executable file.
    NotExecutable { program: String },
    /// No directory of the search path holds the program.
    NotFound { program: String },
    /// The started child has no process id.
    InvalidPid,
}

impl SpawnError {
    /// What the user is told.
    pub open spec fn text(self) -> Seq<char> {
        match self {
            SpawnError::EmptyCommand => "internal error: empty command"@,
            SpawnError::NotExecutable { program } => "failed to spawn "@ + quoted(program@)
                + ": not an executable file"@,
            SpawnError::NotFound { program } => "failed to spawn "@ + quoted(program@)
                + ": not found in PATH"@,
            SpawnError::InvalidPid => "internal error: child reported an invalid pid"@,
        }
    }

    /// What the user is told.
    pub fn message(&self) -> (text: String)
        ensures
            text@ == self.text(),
    {
        match self {
            SpawnError::EmptyCommand => "internal error: empty command".to_owned(),
            SpawnError::NotExecutable { program } => {
                let mut text = "failed to spawn ".to_owned();
                text.append(quote(program.as_str()).as_str());
                text.append(": not an executable file");
                text
            },
            SpawnError::NotFound { program } => {
                let mut text = "failed to spawn ".to_owned();
                text.append(quote(program.as_str()).as_str());
                text.append(": not found in PATH");
                text
            },
            SpawnError::InvalidPid => "internal error: child reported an invalid pid".to_owned(),
        }
    }
}

/// How to start a child.
#[derive(Debug)]
pub struct SpawnPlan {
    pub program: String,
    pub args: Vec<String>,
    pub stdin: Stream,
    pub stdout: Stream,
    pub stderr: Stream,
    /// The environment variable to set, and its value.
    pub display_variable: String,
    pub display: String,
    /// The environment variables to remove.
    pub removed: Vec<String>,
    /// Start the child in a session of its own, so that it has no controlling terminal.
    pub own_session: bool,
    /// The signals to unblock, by number: we block those we wait for, and the child
    /// inherits that.
    pub unblocked_signals: Vec<i32>,
}

/// The signals that ask us to stop: `SIGTERM` and `SIGINT`.
pub open spec fn stop_signals() -> Seq<i32> {
    seq![15i32, 2i32]
}

/// The environment variables a child must not inherit: a Wayland client must not fall
/// back to an inherited X11 display, and the compositor may run as root, so a kiosk
/// application should not inherit loader overrides from whatever launched us.
pub open spec fn withheld_variables() -> Seq<Seq<char>> {
    seq!["DISPLAY"@, "LD_PRELOAD"@, "LD_LIBRARY_PATH"@, "LD_AUDIT"@]
}

/// What texts say.
pub open spec fn texts(strings: Seq<String>) -> Seq<Seq<char>> {
    strings.map_values(|s: String| s@)
}

/// What came of asking whether the child has exited.
#[derive(Debug, Clone, Copy, PartialEq, Eq, Structural)]
pub enum Waited {
    /// It has.
    Exited(ExitStatus),
    /// It has not.
    Running,
    /// Asking failed.
    Failed,
}

/// What to do next about a signalled child.
#[derive(Debug, Clone, Copy, PartialEq, Eq, Structural)]
pub enum WaitStep {
    /// Nothing: it exited.
    Done(ExitStatus),
    /// Nothing: it ignored the signal, and is left to init.
    GiveUp,
    /// Nothing: its status cannot be had.
    Unknown,
    /// Wait until it exits, but no longer than this, then ask again.
    Poll { seconds: u64, nanoseconds: u64 },
}

/// Whether `rustix::process::Pid::from_raw` takes a number that is not negative for a
/// process id.
///
/// Trusted to refuse zero and nothing else.
#[verifier::external_body]
fn is_process_id(raw: i32) -> (valid: bool)
    requires
        raw >= 0,
    ensures
        valid == (raw != 0),
{
    rustix::process::Pid::from_raw(raw).is_some()
}

/// A spawned child.
#[derive(Debug)]
pub struct ChildProcess {
    pid: u32,
    /// True once the child has been waited for. Guards against signalling a pid
    /// the kernel may already have recycled.
    reaped: bool,
}

impl ChildProcess {
    /// The child's process id.
    pub closed spec fn pid(self) -> u32 {
        self.pid
    }

    /// Has the child been waited for?
    pub closed spec fn is_reaped(self) -> bool {
        self.reaped
    }

    /// Whom to send `SIGTERM` to: the child, unless it was waited for.
    pub open spec fn signal_target(self) -> Option<u32> {
        if self.is_reaped() || self.pid() == 0 {
            None
        } else {
            Some(self.pid())
        }
    }

    /// How to spawn `command` with `WAYLAND_DISPLAY` pointing at our socket.
    ///
    /// # Standard streams
    ///
    /// A kiosk application's own logging should not be swallowed, so stdout and
    /// stderr are inherited — *unless* they are a console. A console descriptor is a
    /// VT-switching capability: a client could drop the physical user at a login
    /// prompt, defeating the confinement that is the point of a kiosk. A session of its
    /// own removes the *controlling terminal* but leaves inherited descriptors usable.
    ///
    /// So: a console stream is replaced with `/dev/null` (it is invisible anyway
    /// once the TTY is in graphics mode), while a stream the operator redirected to a
    /// file or pipe is passed through untouched. stdin is always `/dev/null`; a kiosk
    /// application has no console to read.
    pub fn spawn(
        command: &Vec<String>,
        wayland_display: &str,
        stdout_is_console: bool,
        stderr_is_console: bool,
    ) -> (plan: Result<SpawnPlan, SpawnError>)
        ensures
            match plan {
                Ok(plan) => {
                    &&& command@.len() > 0
                    &&& plan.program@ == command@[0]@
                    &&& texts(plan.args@) == texts(command@).skip(1)
                    &&& plan.stdin == Stream::Null
                    &&& plan.stdout == (if stdout_is_console {
                        Stream::Null
                    } else {
                        Stream::Inherit
                    })
                    &&& plan.stderr == (if stderr_is_console {
                        Stream::Null
                    } else {
                        Stream::Inherit
                    })
                    &&& plan.display_variable@ == "WAYLAND_DISPLAY"@
                    &&& plan.display@ == wayland_display@
                    &&& texts(plan.removed@) == withheld_variables()
                    &&& plan.own_session
                    &&& plan.unblocked_signals@ == stop_signals()
                },
                Err(err) => err is EmptyCommand && command@.len() == 0,
            },
    {
        if command.len() == 0 {
            return Err(SpawnError::EmptyCommand);
        }
        let mut args: Vec<String> = Vec::new();
        assert(texts(args@) == texts(command@).subrange(1, 1));
        for i in 1..command.len()
            invariant
                texts(args@) == texts(command@).subrange(1, i as int),
        {
            let ghost before = args@;
            args.push(command[i].clone());
            assert(texts(args@) == texts(before).push(command@[i as int]@));
            assert(texts(command@).subrange(1, i + 1) == texts(command@).subrange(
                1,
                i as int,
            ).push(command@[i as int]@));
        }
        assert(texts(command@).subrange(1, command@.len() as int) == texts(command@).skip(1));
        let mut removed: Vec<String> = Vec::new();
        removed.push("DISPLAY".to_owned());
        removed.push("LD_PRELOAD".to_owned());
        removed.push("LD_LIBRARY_PATH".to_owned());
        removed.push("LD_AUDIT".to_owned());
        assert(texts(removed@) == withheld_variables());
        let mut unblocked_signals: Vec<i32> = Vec::new();
        unblocked_signals.push(15);
        unblocked_signals.push(2);
        Ok(
            SpawnPlan {
                program: command[0].clone(),
                args,
                stdin: Stream::Null,
                stdout: console_safe_stdio(stdout_is_console),
                stderr: console_safe_stdio(stderr_is_console),
                display_variable: "WAYLAND_DISPLAY".to_owned(),
                display: wayland_display.to_owned(),
                removed,
                own_session: true,
                unblocked_signals,
            },
        )
    }

    /// The child was started and has that process id.
    pub fn started(pid: u32) -> (child: Result<ChildProcess, SpawnError>)
        requires
            pid <= i32::MAX,
        ensures
            match child {
                Ok(child) => pid != 0 && child.pid() == pid && !child.is_reaped(),
                Err(err) => pid == 0 && err is InvalidPid,
            },
    {
        if is_process_id(pid as i32) {
            Ok(ChildProcess { pid, reaped: false })
        } else {
            Err(SpawnError::InvalidPid)
        }
    }

    /// The child's process id.
    pub fn id(&self) -> (id: u32)
        ensures
            id == self.pid(),
    {
        self.pid
    }

    /// The child was waited for: map its status to a process exit code.
    ///
    /// `waited` is nothing where its status could not be had.
    pub fn reap(&mut self, waited: Option<ExitStatus>) -> (code: i32)
        requires
            waited matches Some(status) ==> status_code(status) <= i32::MAX,
        ensures
            final(self).is_reaped(),
            final(self).pid() == old(self).pid(),
            code == (match waited {
                Some(status) => status_code(status),
                None => REAP_FAILURE_STATUS as int,
            }),
    {
        self.reaped = true;
        match waited {
            Some(status) => exit_code_of(&status),
            None => REAP_FAILURE_STATUS,
        }
    }

    /// Whom to send `SIGTERM` to when the compositor shuts down first.
    ///
    /// Nobody, if the child was reaped: its pid may already have been recycled, and
    /// signalling it would hit an unrelated process. Otherwise [`Self::wait_for_exit`]
    /// follows, whatever came of the signal.
    pub fn terminate(&self) -> (target: Option<u32>)
        requires
            self.pid() <= i32::MAX,
        ensures
            target == self.signal_target(),
    {
        if self.reaped {
            return None;
        }
        if is_process_id(self.pid as i32) {
            Some(self.pid)
        } else {
            None
        }
    }

    /// Wait for a signalled child to exit, but no longer than [`TERMINATE_GRACE_NS`].
    ///
    /// `waited` says whether it has exited, and `elapsed` how long ago it was signalled,
    /// in nanoseconds. A child that ignores `SIGTERM` must not hang shutdown — nothing
    /// is compositing the screen while we wait — but giving up at once would mean that
    /// the child never gets to run its handler.
    pub fn wait_for_exit(&mut self, waited: Waited, elapsed: u64) -> (step: WaitStep)
        ensures
            final(self).pid() == old(self).pid(),
            final(self).is_reaped() == (old(self).is_reaped() || waited is Exited),
            match step {
                WaitStep::Done(status) => waited == Waited::Exited(status),
                WaitStep::Unknown => waited == Waited::Failed,
                WaitStep::GiveUp => waited == Waited::Running && elapsed >= TERMINATE_GRACE_NS,
                WaitStep::Poll { seconds, nanoseconds } => {
                    &&& waited == Waited::Running
                    &&& elapsed < TERMINATE_GRACE_NS
                    &&& nanoseconds < 1_000_000_000
                    &&& elapsed + seconds * 1_000_000_000 + nanoseconds == TERMINATE_GRACE_NS
                },
            },
    {
        match waited {
            Waited::Exited(status) => {
                self.reaped = true;
                WaitStep::Done(status)
            },
            Waited::Failed => WaitStep::Unknown,
            Waited::Running => {
                if elapsed >= TERMINATE_GRACE_NS {
                    return WaitStep::GiveUp;
                }
                let remaining: u64 = TERMINATE_GRACE_NS - elapsed;
                WaitStep::Poll {
                    seconds: remaining / 1_000_000_000,
                    nanoseconds: remaining % 1_000_000_000,
                }
            },
        }
    }
}

/// The separator of the directories of a search path.
pub const PATH_SEPARATOR: u8 = 0x3a;

/// The directories of a search path. An empty component is the current directory, and
/// an unset or empty path is `/bin:/usr/bin`.
pub open spec fn directories(value: Option<Seq<u8>>) -> Seq<Seq<u8>> {
    match value {
        Some(path) if path.len() > 0 => split(path, PATH_SEPARATOR).map_values(
            |dir: Seq<u8>| directory(dir),
        ),
        _ => seq![seq![0x2fu8, 0x62, 0x69, 0x6e], seq![
            0x2fu8,
            0x75,
            0x73,
            0x72,
            0x2f,
            0x62,
            0x69,
            0x6e,
        ]],
    }
}

/// A component of a search path as a directory: `.` for an empty one.
pub open spec fn directory(component: Seq<u8>) -> Seq<u8> {
    if component.len() == 0 {
        seq![0x2eu8]
    } else {
        component
    }
}

/// What byte strings hold.
pub open spec fn contents(strings: Seq<Vec<u8>>) -> Seq<Seq<u8>> {
    strings.map_values(|s: Vec<u8>| s@)
}

fn into_directory(component: Vec<u8>) -> (dir: Vec<u8>)
    ensures
        dir@ == directory(component@),
{
    if component.len() == 0 {
        let mut dir: Vec<u8> = Vec::new();
        dir.push(0x2e);
        assert(dir@ == seq![0x2eu8]);
        dir
    } else {
        component
    }
}

/// The directories that a search for a program goes through, given the value of
/// `PATH`.
///
/// An unset or empty `PATH` is not "no directories": the search falls back to a
/// default, conventionally `/bin:/usr/bin`. Treating it as empty would reject a command
/// that could be run.
pub fn search_path_from(value: Option<Vec<u8>>) -> (dirs: Vec<Vec<u8>>)
    ensures
        contents(dirs@) == directories(
            match value {
                Some(path) => Some(path@),
                None => None,
            },
        ),
{
    let mut dirs: Vec<Vec<u8>> = Vec::new();
    assert(contents(dirs@) == Seq::<Seq<u8>>::empty());
    let path: Vec<u8> = match value {
        Some(path) => path,
        None => Vec::new(),
    };
    if path.len() == 0 {
        let bin: Vec<u8> = vec![0x2f, 0x62, 0x69, 0x6e];
        let usr_bin: Vec<u8> = vec![0x2f, 0x75, 0x73, 0x72, 0x2f, 0x62, 0x69, 0x6e];
        dirs.push(bin);
        dirs.push(usr_bin);
        assert(contents(dirs@)[0] == seq![0x2fu8, 0x62, 0x69, 0x6e]);
        assert(contents(dirs@)[1] == seq![0x2fu8, 0x75, 0x73, 0x72, 0x2f, 0x62, 0x69, 0x6e]);
        assert(contents(dirs@) == directories(None));
        return dirs;
    }
    let is_separator = |byte: u8| -> (yes: bool)
        ensures
            yes == (byte == PATH_SEPARATOR),
        { byte == PATH_SEPARATOR };
    let found = pieces_between(&path, is_separator, Ghost(PATH_SEPARATOR));
    let ghost named = split(path@, PATH_SEPARATOR);
    assert(contents(found@) == named);
    let ghost all = named.map_values(|d: Seq<u8>| directory(d));
    for i in 0..found.len()
        invariant
            contents(found@) == named,
            all == named.map_values(|d: Seq<u8>| directory(d)),
            contents(dirs@) == all.take(i as int),
    {
        let ghost earlier = dirs@;
        assert(contents(found@)[i as int] == found@[i as int]@);
        let dir = into_directory(found[i].clone());
        dirs.push(dir);
        assert(contents(dirs@) == contents(earlier).push(dir@));
        assert(all.take(i + 1) == all.take(i as int).push(all[i as int]));
    }
    assert(contents(found@).len() == found.len());
    assert(all.take(found.len() as int) == all);
    dirs
}

/// There is always a directory to search, and none of them is empty, which would mean
/// something else to whoever opens it.
pub proof fn law_search_path_is_usable(value: Option<Seq<u8>>)
    ensures
        directories(value).len() > 0,
        forall|i: int| 0 <= i < directories(value).len() ==> (#[trigger] directories(
            value,
        )[i]).len() > 0,
{
    if let Some(path) = value {
        lemma_split_is_not_empty(path, PATH_SEPARATOR);
    }
}

/// Does `program` name a file by its path, rather than something to search for?
pub open spec fn has_slash(program: Seq<char>) -> bool {
    exists|i: int| 0 <= i < program.len() && #[trigger] program[i] == '/'
}

fn contains_slash(program: &str) -> (yes: bool)
    ensures
        yes == has_slash(program@),
{
    let chars = characters(program);
    for i in 0..chars.len()
        invariant
            chars@ == program@,
            forall|j: int| 0 <= j < i ==> #[trigger] program@[j] != '/',
    {
        if chars[i] == '/' {
            assert(program@[i as int] == '/');
            return true;
        }
    }
    false
}

/// Check that a command names something executable, before the compositor takes
/// over the screen.
///
/// The real spawn necessarily happens after the display is up, because the child needs
/// a socket to connect to. This closes the ordinary typo-in-a-unit-file case while
/// stderr is still visible on the console.
///
/// `is_executable` says whether a path is an executable file, and `is_executable_in`
/// whether a directory holds an executable file of that name. `dirs` are the
/// directories to search.
pub fn preflight<F: Fn(&str) -> bool, G: Fn(&Vec<u8>, &str) -> bool>(
    command: &Vec<String>,
    dirs: &Vec<Vec<u8>>,
    is_executable: F,
    is_executable_in: G,
) -> (checked: Result<(), SpawnError>)
    requires
        forall|path: &str|
            command@.len() > 0 && path@ == command@[0]@ && has_slash(path@) ==> #[trigger] call_requires(
                is_executable,
                (path,),
            ),
        forall|i: int, name: &str|
            {
                &&& 0 <= i < dirs@.len()
                &&& command@.len() > 0 && name@ == command@[0]@ && !has_slash(name@)
            } ==> #[trigger] call_requires(is_executable_in, (&dirs@[i], name)),
    ensures
        command@.len() == 0 ==> (checked matches Err(err) && err is EmptyCommand),
        command@.len() > 0 && has_slash(command@[0]@) ==> exists|path: &str|
            {
                &&& #[trigger] path@ == command@[0]@
                &&& match checked {
                    Ok(()) => call_ensures(is_executable, (path,), true),
                    Err(SpawnError::NotExecutable { program }) => {
                        &&& program@ == path@
                        &&& call_ensures(is_executable, (path,), false)
                    },
                    Err(_) => false,
                }
            },
        command@.len() > 0 && !has_slash(command@[0]@) ==> exists|name: &str|
            {
                &&& #[trigger] name@ == command@[0]@
                &&& match checked {
                    Ok(()) => exists|i: int|
                        0 <= i < dirs@.len() && call_ensures(
                            is_executable_in,
                            (&#[trigger] dirs@[i], name),
                            true,
                        ),
                    Err(SpawnError::NotFound { program }) => {
                        &&& program@ == name@
                        &&& forall|i: int|
                            0 <= i < dirs@.len() ==> call_ensures(
                                is_executable_in,
                                (&#[trigger] dirs@[i], name),
                                false,
                            )
                    },
                    Err(_) => false,
                }
            },
{
    if command.len() == 0 {
        return Err(SpawnError::EmptyCommand);
    }
    let program: &str = command[0].as_str();
    if contains_slash(program) {
        if !is_executable(program) {
            return Err(SpawnError::NotExecutable { program: program.to_owned() });
        }
        return Ok(());
    }
    for i in 0..dirs.len()
        invariant
            command@.len() > 0,
            program@ == command@[0]@,
            !has_slash(program@),
            forall|j: int|
                0 <= j < dirs@.len() ==> #[trigger] call_requires(
                    is_executable_in,
                    (&dirs@[j], program),
                ),
            forall|j: int|
                0 <= j < i ==> call_ensures(
                    is_executable_in,
                    (&#[trigger] dirs@[j], program),
                    false,
                ),
    {
        if is_executable_in(&dirs[i], program) {
            assert(call_ensures(is_executable_in, (&dirs@[i as int], program), true));
            return Ok(());
        }
    }
    Err(SpawnError::NotFound { program: program.to_owned() })
}

/// A child that was reaped is never signalled again: its pid may belong to somebody
/// else by then.
pub proof fn law_a_reaped_child_is_not_signalled(child: ChildProcess)
    requires
        child.is_reaped(),
    ensures
        child.signal_target() is None,
{
}

} // verus!
