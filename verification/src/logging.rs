//! What is logged, and where it may be written.

use vstd::prelude::*;

use crate::cli::{filter_of, log_filter};
use crate::text::{blank, decimal, is_blank, lossy, lossy_text, number};

verus! {

/// The filter directive to use: `RUST_LOG` when set and not blank, else the `-v`
/// count.
///
/// `RUST_LOG` winning outright is the documented escape hatch for tracing one
/// module without drowning in the rest.
pub fn filter_directive(rust_log: Option<&str>, verbose: u8) -> (directive: String)
    ensures
        directive@ == (match rust_log {
            Some(value) => if is_blank(value@) {
                filter_of(verbose as nat)
            } else {
                value@
            },
            None => filter_of(verbose as nat),
        }),
{
    match rust_log {
        Some(value) => {
            if blank(value) {
                log_filter(verbose).to_owned()
            } else {
                value.to_owned()
            }
        },
        None => log_filter(verbose).to_owned(),
    }
}

/// The permissions of the log file. At `-vvv` the log carries protocol traces, which
/// hold keycodes and window titles — on a kiosk taking a PIN that must not be
/// world-readable.
pub const LOG_FILE_MODE: u32 = 0o600;

/// What the log file was found to be, once it was open.
#[derive(Debug, Clone, Copy, PartialEq, Eq, Structural)]
pub struct SinkStat {
    /// Its kind and permissions.
    pub mode: u32,
    /// How many paths lead to it.
    pub links: u64,
    /// Who owns it.
    pub uid: u32,
}

/// Do these mode bits mark a regular file?
pub open spec fn is_regular_mode(mode: u32) -> bool {
    mode & 0o170000 == 0o100000
}

/// Do these mode bits grant nothing to group or other?
pub open spec fn is_private_mode(mode: u32) -> bool {
    mode & 0o077 == 0
}

/// Whether `rustix::fs::FileType::from_raw_mode` takes these mode bits for those of a
/// regular file.
///
/// Trusted to look at the file-type bits alone, and to find there the type of a
/// regular file.
#[verifier::external_body]
fn is_regular_file(mode: u32) -> (regular: bool)
    ensures
        regular == is_regular_mode(mode),
{
    match rustix::fs::FileType::from_raw_mode(mode) {
        rustix::fs::FileType::RegularFile => true,
        _ => false,
    }
}

/// Why a log file is refused.
#[derive(Debug)]
pub enum SinkError {
    /// A pipe, a device or the like, whose permissions mean nothing.
    NotRegular { path: Vec<u8> },
    /// Another path leads to the file.
    HardLinked { path: Vec<u8>, links: u64 },
    /// Somebody else owns the file, and could re-open it whatever its permissions.
    ForeignOwner { path: Vec<u8>, owner: u32, user: u32 },
    /// The permissions are too wide and could not be narrowed.
    NotRestricted,
}

impl SinkError {
    /// What the user is told.
    pub open spec fn text(self) -> Seq<char> {
        match self {
            SinkError::NotRegular { path } => "log file "@ + lossy(path@) + " is not a regular file"@,
            SinkError::HardLinked { path, links } => "log file "@ + lossy(path@) + " has "@ + decimal(
                links as nat,
            ) + " hard links; refusing to write a log another path can read"@,
            SinkError::ForeignOwner { path, owner, user } => "log file "@ + lossy(path@)
                + " is owned by uid "@ + decimal(owner as nat) + ", not "@ + decimal(user as nat)
                + "; refusing to write a log its owner can re-open"@,
            SinkError::NotRestricted => "failed to restrict the log file's permissions"@,
        }
    }

    /// What the user is told.
    pub fn message(&self) -> (text: String)
        ensures
            text@ == self.text(),
    {
        match self {
            SinkError::NotRegular { path } => {
                let mut text = "log file ".to_owned();
                text.append(lossy_text(path).as_str());
                text.append(" is not a regular file");
                text
            },
            SinkError::HardLinked { path, links } => {
                let mut text = "log file ".to_owned();
                text.append(lossy_text(path).as_str());
                text.append(" has ");
                text.append(number(*links).as_str());
                text.append(" hard links; refusing to write a log another path can read");
                text
            },
            SinkError::ForeignOwner { path, owner, user } => {
                let mut text = "log file ".to_owned();
                text.append(lossy_text(path).as_str());
                text.append(" is owned by uid ");
                text.append(number(*owner as u64).as_str());
                text.append(", not ");
                text.append(number(*user as u64).as_str());
                text.append("; refusing to write a log its owner can re-open");
                text
            },
            SinkError::NotRestricted => "failed to restrict the log file's permissions".to_owned(),
        }
    }
}

/// Is the file one that may be tightened and written at all: a regular file, with one
/// path to it, of our own?
pub open spec fn is_trustworthy(stat: SinkStat, user: u32) -> bool {
    &&& is_regular_mode(stat.mode)
    &&& stat.links <= 1
    &&& stat.uid == user
}

/// Check that an open log file may be tightened and written at all.
///
/// The mode asked for at opening applies only to a file that is created then, and
/// refusing to follow a symbolic link rejects neither a regular file that was there
/// before nor a hard link. So the open file itself is checked. Tightening is not enough
/// on its own: the owner of a file can widen its permissions again, and add hard links
/// whenever they like, so a file of somebody else's is refused.
pub fn check_log_file(path: &Vec<u8>, stat: &SinkStat, user: u32) -> (checked: Result<(), SinkError>)
    ensures
        match checked {
            Ok(()) => is_trustworthy(*stat, user),
            Err(SinkError::NotRegular { path: named }) => {
                &&& named@ == path@
                &&& !is_regular_mode(stat.mode)
            },
            Err(SinkError::HardLinked { path: named, links }) => {
                &&& named@ == path@
                &&& links == stat.links
                &&& is_regular_mode(stat.mode)
                &&& stat.links > 1
            },
            Err(SinkError::ForeignOwner { path: named, owner, user: us }) => {
                &&& named@ == path@
                &&& owner == stat.uid
                &&& us == user
                &&& is_regular_mode(stat.mode)
                &&& stat.links <= 1
                &&& stat.uid != user
            },
            Err(SinkError::NotRestricted) => false,
        },
{
    if !is_regular_file(stat.mode) {
        return Err(SinkError::NotRegular { path: path.clone() });
    }
    if stat.links > 1 {
        return Err(SinkError::HardLinked { path: path.clone(), links: stat.links });
    }
    if stat.uid != user {
        return Err(SinkError::ForeignOwner { path: path.clone(), owner: stat.uid, user });
    }
    Ok(())
}

/// Decide whether a checked log file may be written, once it was tried to narrow its
/// permissions to [`LOG_FILE_MODE`]; `stat` is what it was found to be before.
///
/// A failure to tighten is tolerated *only* where the file grants nothing to group or
/// other already: filesystems without Unix permissions reject the attempt outright.
pub fn settle_log_file(stat: &SinkStat, tightened: bool) -> (settled: Result<(), SinkError>)
    ensures
        settled is Ok <==> tightened || is_private_mode(stat.mode),
        settled matches Err(err) ==> err is NotRestricted,
{
    let already_private = stat.mode & 0o077 == 0;
    if !tightened && !already_private {
        return Err(SinkError::NotRestricted);
    }
    Ok(())
}

/// Decide whether an open log file may be written, tightening its permissions.
///
/// `tighten` narrows the permissions of the open file to [`LOG_FILE_MODE`] and says
/// whether it could. It may be called on a file that passed [`check_log_file`] and on
/// no other: a file that is refused keeps the permissions it has.
pub fn open_log_sink<F: FnOnce() -> bool>(
    path: &Vec<u8>,
    stat: &SinkStat,
    user: u32,
    tighten: F,
) -> (admitted: Result<(), SinkError>)
    requires
        is_trustworthy(*stat, user) ==> call_requires(tighten, ()),
    ensures
        match admitted {
            Ok(()) => {
                &&& is_trustworthy(*stat, user)
                &&& call_ensures(tighten, (), true) || (call_ensures(tighten, (), false)
                    && is_private_mode(stat.mode))
            },
            Err(SinkError::NotRegular { path: named }) => {
                &&& named@ == path@
                &&& !is_regular_mode(stat.mode)
            },
            Err(SinkError::HardLinked { path: named, links }) => {
                &&& named@ == path@
                &&& links == stat.links
                &&& is_regular_mode(stat.mode)
                &&& stat.links > 1
            },
            Err(SinkError::ForeignOwner { path: named, owner, user: us }) => {
                &&& named@ == path@
                &&& owner == stat.uid
                &&& us == user
                &&& is_regular_mode(stat.mode)
                &&& stat.links <= 1
                &&& stat.uid != user
            },
            Err(SinkError::NotRestricted) => {
                &&& is_trustworthy(*stat, user)
                &&& call_ensures(tighten, (), false)
                &&& !is_private_mode(stat.mode)
            },
        },
{
    match check_log_file(path, stat, user) {
        Ok(()) => {},
        Err(err) => {
            return Err(err);
        },
    }
    let tightened = tighten();
    settle_log_file(stat, tightened)
}

} // verus!
