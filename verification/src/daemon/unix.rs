//! Listening on a socket, which is a file and outlives the process that made it.
use vstd::prelude::*;
use vstd::utf8;

use crate::daemon::Handoff;
use crate::daemon::name::{self, tag_session};
use crate::path::{self, FilePath, PathView};
use crate::text::{self, chars_of, push_decimal, push_str, string_of};

verus! {

/// The name of the socket of user `uid` in a session.
pub open spec fn socket_file(uid: u32, session: Option<Seq<char>>) -> Seq<char> {
    "sekio-gui-"@ + text::decimal(uid as nat) + "-"@ + name::session_tag(session) + ".sock"@
}

/// The name of the socket: the user keeps two users apart in a directory that
/// they share, the session two logins of one user.
pub fn socket_name(uid: u32, session: Option<&str>) -> (r: String)
    ensures
        r@ == socket_file(
            uid,
            match session {
                Some(s) => Some(s@),
                None => None,
            },
        ),
{
    let mut out = chars_of("sekio-gui-");
    push_decimal(&mut out, uid as u64);
    push_str(&mut out, "-");
    let tag = tag_session(session);
    push_str(&mut out, tag.as_str());
    push_str(&mut out, ".sock");
    string_of(out.as_slice())
}

/// Where the socket is: in the runtime directory where that is absolute, else in
/// the directory for temporary files.
pub fn socket_path_for(
    runtime_dir: Option<FilePath>,
    temp_dir: FilePath,
    uid: u32,
    session: Option<&str>,
) -> (r: FilePath)
    ensures
        r@ == path::joined(
            if runtime_dir is Some && path::absolute(runtime_dir->0@) {
                runtime_dir->0@
            } else {
                temp_dir@
            },
            utf8::encode_utf8(
                socket_file(
                    uid,
                    match session {
                        Some(s) => Some(s@),
                        None => None,
                    },
                ),
            ),
        ),
{
    let dir = match runtime_dir {
        Some(dir) => if dir.is_absolute() {
            dir
        } else {
            temp_dir
        },
        None => temp_dir,
    };
    let name = socket_name(uid, session);
    dir.join_str(name.as_str())
}

/// Which session this is, out of `$WAYLAND_DISPLAY` and `$DISPLAY`: the first that
/// is set and not empty.
pub fn session_id(wayland: Option<String>, display: Option<String>) -> (r: Option<String>)
    ensures
        r == (if wayland is Some && wayland->0@.len() > 0 {
            wayland
        } else if display is Some && display->0@.len() > 0 {
            display
        } else {
            None
        }),
{
    match wayland {
        Some(value) => if !value.as_str().is_empty() {
            return Some(value);
        },
        None => {},
    }
    match display {
        Some(value) => if !value.as_str().is_empty() {
            return Some(value);
        },
        None => {},
    }
    None
}

/// What a socket is recognised by. The device and the inode are not enough: the
/// next socket may get the same inode, so the time it was made counts too.
#[derive(Debug, Clone, Copy, PartialEq, Eq, Structural)]
pub struct SocketIdent {
    pub dev: u64,
    pub ino: u64,
    pub ctime: i64,
    pub ctime_nsec: i64,
}

/// The socket that this process made.
#[derive(Debug)]
pub struct SocketGuard {
    path: FilePath,
    ident: Option<SocketIdent>,
}

impl SocketGuard {
    /// Where the socket is.
    pub closed spec fn at(&self) -> PathView {
        self.path@
    }

    /// What it is recognised by.
    pub closed spec fn identity(&self) -> Option<SocketIdent> {
        self.ident
    }

    /// The socket at `path`, as it was when it was made.
    pub fn new(path: FilePath, ident: Option<SocketIdent>) -> (r: SocketGuard)
        ensures
            r.at() == path@,
            r.identity() == ident,
    {
        SocketGuard { path, ident }
    }

    /// Where the socket is.
    pub fn path(&self) -> (r: &FilePath)
        ensures
            r@ == self.at(),
    {
        &self.path
    }

    /// What it is recognised by.
    pub fn ident(&self) -> (r: Option<SocketIdent>)
        ensures
            r == self.identity(),
    {
        self.ident
    }

    /// Whether the file is to be removed, given what is there now: only where it
    /// is still the socket that this process made.
    pub fn release(&self, now: Option<SocketIdent>) -> (r: bool)
        ensures
            r == (self.identity() is Some && now == self.identity()),
    {
        match (self.ident, now) {
            (Some(own), Some(there)) => own == there,
            _ => false,
        }
    }
}

/// How far binding the socket has come.
#[derive(Debug, Clone, Copy, PartialEq, Eq, Structural)]
pub enum BindStage {
    /// It was tried once.
    First,
    /// A stale file was removed, and it was tried again.
    Second,
}

/// What an attempt to bind came to.
#[derive(Debug)]
pub enum BindOutcome {
    Bound,
    /// There is a file already.
    InUse,
    /// It failed, and why.
    Failed(String),
}

/// What to do after an attempt to bind.
#[derive(Debug)]
pub enum BindStep {
    /// This process listens.
    Listen,
    /// Another does: this one is not the resident one.
    AlreadyRunning,
    /// See whether anybody answers, and go by [`after_probe`].
    Probe,
    /// Give up, and why.
    Fail(String),
}

/// What to do after an attempt to bind. A second attempt that finds a file has
/// lost to a process that bound in between.
pub fn after_bind(stage: BindStage, outcome: BindOutcome) -> (r: BindStep)
    ensures
        match outcome {
            BindOutcome::Bound => r is Listen,
            BindOutcome::InUse => if stage == BindStage::First {
                r is Probe
            } else {
                r is AlreadyRunning
            },
            BindOutcome::Failed(why) => r == BindStep::Fail(why),
        },
{
    match outcome {
        BindOutcome::Bound => BindStep::Listen,
        BindOutcome::InUse => match stage {
            BindStage::First => BindStep::Probe,
            BindStage::Second => BindStep::AlreadyRunning,
        },
        BindOutcome::Failed(why) => BindStep::Fail(why),
    }
}

/// What to do about a file in the way.
#[derive(Debug)]
pub enum ProbeStep {
    /// Somebody answers: this process is not the resident one.
    AlreadyRunning,
    /// Nobody answers: remove it and bind again.
    Reclaim,
    /// It is no socket: leave it and give up.
    Fail(String),
}

/// What to do about a file in the way: `answered` is whether somebody answers
/// there, `is_socket` whether it is a socket.
pub fn after_probe(answered: bool, is_socket: bool) -> (r: ProbeStep)
    ensures
        answered ==> r is AlreadyRunning,
        !answered && is_socket ==> r is Reclaim,
        !answered && !is_socket ==> r is Fail && r->Fail_0@ == "path exists and is not a socket"@,
{
    if answered {
        ProbeStep::AlreadyRunning
    } else if is_socket {
        ProbeStep::Reclaim
    } else {
        ProbeStep::Fail("path exists and is not a socket".to_owned())
    }
}

/// What a handoff comes to where nobody could be reached, and whether the socket
/// is to be removed: it is where it was refused, since then the process that made
/// it is gone.
pub fn unreachable_socket(refused: bool, is_socket: bool, why: String) -> (r: (Handoff, bool))
    ensures
        r.1 == (refused && is_socket),
        r.0.why() == Some(
            if refused && is_socket {
                "removed a stale socket"@
            } else {
                why@
            },
        ),
{
    if refused && is_socket {
        (Handoff::Unavailable("removed a stale socket".to_owned()), true)
    } else {
        (Handoff::Unavailable(why), false)
    }
}

} // verus!
