//! Listening on a named pipe, which is gone when nobody listens.
use vstd::prelude::*;

use crate::daemon::Handoff;
use crate::daemon::name::{self, tag, tag_session};
use crate::text::{chars_of, push_str, string_of};

verus! {

/// What the name of a pipe begins with.
pub open spec fn pipe_prefix() -> Seq<char> {
    "\\\\.\\pipe\\"@
}

/// The name of the pipe of a user in a session.
pub open spec fn pipe_of(user: Seq<char>, session: Option<Seq<char>>) -> Seq<char> {
    pipe_prefix() + "sekio-gui-"@ + name::tagged(user) + "-"@ + name::session_tag(session)
}

/// The name of the pipe: the user keeps two users apart, the session two logins
/// of one user.
pub fn pipe_name(user: &str, session: Option<&str>) -> (r: String)
    ensures
        r@ == pipe_of(
            user@,
            match session {
                Some(s) => Some(s@),
                None => None,
            },
        ),
{
    let mut out = chars_of("\\\\.\\pipe\\");
    push_str(&mut out, "sekio-gui-");
    let user = tag(user);
    push_str(&mut out, user.as_str());
    push_str(&mut out, "-");
    let session = tag_session(session);
    push_str(&mut out, session.as_str());
    string_of(out.as_slice())
}

pub const ERROR_FILE_NOT_FOUND: u32 = 2;

pub const ERROR_PATH_NOT_FOUND: u32 = 3;

pub const ERROR_ACCESS_DENIED: u32 = 5;

pub const ERROR_BROKEN_PIPE: u32 = 109;

pub const ERROR_SEM_TIMEOUT: u32 = 121;

pub const ERROR_PIPE_BUSY: u32 = 231;

pub const ERROR_NO_DATA: u32 = 232;

pub const ERROR_PIPE_NOT_CONNECTED: u32 = 233;

pub const ERROR_PIPE_CONNECTED: u32 = 535;

/// The system's error number in a result code: one of that facility carries it in
/// its lower half.
pub fn code_of(hresult: u32) -> (r: u32)
    ensures
        r == (if hresult / 0x1_0000 == 0x8007 {
            hresult % 0x1_0000
        } else {
            hresult
        }),
{
    if hresult / 0x1_0000 == 0x8007 {
        hresult % 0x1_0000
    } else {
        hresult
    }
}

/// Whether an error means that another process has the pipe.
pub fn is_taken(code: u32) -> (r: bool)
    ensures
        r == (code == ERROR_ACCESS_DENIED || code == ERROR_PIPE_BUSY),
{
    code == ERROR_ACCESS_DENIED || code == ERROR_PIPE_BUSY
}

/// Whether an error means that there is no pipe.
pub fn is_absent(code: u32) -> (r: bool)
    ensures
        r == (code == ERROR_FILE_NOT_FOUND || code == ERROR_PATH_NOT_FOUND),
{
    code == ERROR_FILE_NOT_FOUND || code == ERROR_PATH_NOT_FOUND
}

/// Whether an error of waiting for the pipe means that it is there and serving
/// somebody else.
pub fn is_serving(code: u32) -> (r: bool)
    ensures
        r == (code == ERROR_SEM_TIMEOUT || code == ERROR_PIPE_BUSY),
{
    code == ERROR_SEM_TIMEOUT || code == ERROR_PIPE_BUSY
}

// ---------------------------------------------------------------------------
// Opening the pipe
// ---------------------------------------------------------------------------
/// How long to wait for a pipe that serves somebody else, in milliseconds.
pub const CONNECT_WAIT_MS: u32 = 250;

/// What to do next on the way to an open pipe.
#[derive(Debug, PartialEq, Eq)]
pub enum Opening {
    /// It is open: talk.
    Talk,
    /// Wait this many milliseconds at most for it to come free.
    Wait(u32),
    /// Open it once more.
    Again,
    /// There is nobody to talk to, and why.
    Nobody(Handoff),
    /// It failed, with this error of the system.
    Failed(u32),
}

/// Whether an outcome is the one that is specified, by what is told of it.
pub open spec fn nobody(r: Opening, why: Seq<char>) -> bool {
    match r {
        Opening::Nobody(handoff) => handoff.why() == Some(why),
        _ => false,
    }
}

/// What to do after an attempt to open the pipe, where `outcome` has the error if it
/// failed and `again` says that it was the second: a pipe that is not there has nobody
/// behind it, and one that serves somebody else is worth one short wait.
pub fn after_open(again: bool, outcome: Result<(), u32>) -> (r: Opening)
    ensures
        match outcome {
            Ok(()) => r is Talk,
            Err(code) => if again {
                r == Opening::Failed(code)
            } else if code == ERROR_FILE_NOT_FOUND || code == ERROR_PATH_NOT_FOUND {
                nobody(r, "no daemon is listening"@)
            } else if code == ERROR_PIPE_BUSY {
                r == Opening::Wait(CONNECT_WAIT_MS)
            } else {
                r == Opening::Failed(code)
            },
        },
{
    match outcome {
        Ok(()) => Opening::Talk,
        Err(code) => if again {
            Opening::Failed(code)
        } else if is_absent(code) {
            Opening::Nobody(Handoff::Unavailable("no daemon is listening".to_owned()))
        } else if code == ERROR_PIPE_BUSY {
            Opening::Wait(CONNECT_WAIT_MS)
        } else {
            Opening::Failed(code)
        },
    }
}

/// What to do after the wait, where `free` says whether the pipe came free.
pub fn after_wait(free: bool) -> (r: Opening)
    ensures
        free ==> r is Again,
        !free ==> nobody(r, "the daemon is busy"@),
{
    if free {
        Opening::Again
    } else {
        Opening::Nobody(Handoff::Unavailable("the daemon is busy".to_owned()))
    }
}

/// Whether somebody is on the other end once the resident process has waited for a
/// client: one that came before the wait began is there all the same.
pub fn is_connected(outcome: Result<(), u32>) -> (r: bool)
    ensures
        r == (outcome is Ok || outcome == Err::<(), u32>(ERROR_PIPE_CONNECTED)),
{
    match outcome {
        Ok(()) => true,
        Err(code) => code == ERROR_PIPE_CONNECTED,
    }
}

// ---------------------------------------------------------------------------
// Talking over it
// ---------------------------------------------------------------------------
/// How long a conversation may take, in microseconds.
pub const IO_TIMEOUT: u64 = 1_000_000;

/// How long to wait first for the other side, in microseconds.
pub const FIRST_NAP: u64 = 250;

/// How long to wait at most at a time, in microseconds.
pub const MAX_NAP: u64 = 4000;

/// How long to wait the next time: twice as long, up to the most.
pub fn next_nap(nap: u64) -> (r: u64)
    ensures
        r == (if 2 * nap < MAX_NAP {
            2 * nap
        } else {
            MAX_NAP as int
        }),
{
    if nap < MAX_NAP / 2 {
        nap * 2
    } else {
        MAX_NAP
    }
}

/// What reading from the pipe, or writing to it, came to.
#[derive(Debug, Clone, Copy, PartialEq, Eq, Structural)]
pub enum Turn {
    /// So many bytes went through.
    Moved(u32),
    /// The other side is gone: there is no more to read.
    End,
    /// Nothing yet: sleep so many microseconds, and try again.
    Nap(u64),
    /// The other side has been silent for too long.
    TimedOut,
    /// It failed, with this error of the system.
    Failed(u32),
}

/// A conversation over a pipe that does not wait: when it has to be over, and how
/// long the next nap is.
#[derive(Debug, Clone, Copy, PartialEq, Eq, Structural)]
pub struct Conversation {
    pub deadline: u64,
    pub nap: u64,
}

impl Conversation {
    /// Its naps are of a length that they may have.
    pub open spec fn wf(&self) -> bool {
        FIRST_NAP <= self.nap <= MAX_NAP
    }

    /// What follows where nothing went through: another nap, each twice as long as
    /// the one before it, or the end where time is up.
    pub open spec fn paused(self, now: u64) -> (Turn, Conversation) {
        if now >= self.deadline {
            (Turn::TimedOut, self)
        } else {
            let next = if 2 * self.nap < MAX_NAP {
                2 * self.nap
            } else {
                MAX_NAP as int
            };
            (Turn::Nap(self.nap), Conversation { deadline: self.deadline, nap: next as u64 })
        }
    }

    /// What follows where something went through: the next nap is a short one again.
    pub open spec fn moved(self, n: u32) -> (Turn, Conversation) {
        (Turn::Moved(n), Conversation { deadline: self.deadline, nap: FIRST_NAP })
    }

    /// What reading comes to.
    pub open spec fn reading(self, now: u64, outcome: Result<u32, u32>) -> (Turn, Conversation) {
        match outcome {
            Ok(n) => if n == 0 {
                self.paused(now)
            } else {
                self.moved(n)
            },
            Err(code) => if code == ERROR_NO_DATA {
                self.paused(now)
            } else if code == ERROR_BROKEN_PIPE || code == ERROR_PIPE_NOT_CONNECTED {
                (Turn::End, self)
            } else {
                (Turn::Failed(code), self)
            },
        }
    }

    /// What writing comes to.
    pub open spec fn writing(self, now: u64, outcome: Result<u32, u32>) -> (Turn, Conversation) {
        match outcome {
            Ok(n) => if n == 0 {
                self.paused(now)
            } else {
                self.moved(n)
            },
            Err(code) => (Turn::Failed(code), self),
        }
    }

    /// A conversation that begins now.
    pub fn new(now: u64) -> (r: Conversation)
        requires
            now + IO_TIMEOUT <= u64::MAX,
        ensures
            r.wf(),
            r.deadline == now + IO_TIMEOUT,
            r.nap == FIRST_NAP,
    {
        Conversation { deadline: now + IO_TIMEOUT, nap: FIRST_NAP }
    }

    /// Nothing went through.
    fn pause(&mut self, now: u64) -> (r: Turn)
        requires
            old(self).wf(),
        ensures
            final(self).wf(),
            (r, *final(self)) == old(self).paused(now),
    {
        if now >= self.deadline {
            Turn::TimedOut
        } else {
            let nap: u64 = self.nap;
            self.nap = next_nap(nap);
            Turn::Nap(nap)
        }
    }

    /// The pipe was read from: `outcome` is how many bytes came, or the error. Nothing
    /// there yet is no end, and a client that hung up is no failure.
    pub fn read(&mut self, now: u64, outcome: Result<u32, u32>) -> (r: Turn)
        requires
            old(self).wf(),
        ensures
            final(self).wf(),
            (r, *final(self)) == old(self).reading(now, outcome),
    {
        match outcome {
            Ok(n) => if n == 0 {
                self.pause(now)
            } else {
                self.nap = FIRST_NAP;
                Turn::Moved(n)
            },
            Err(code) => if code == ERROR_NO_DATA {
                self.pause(now)
            } else if code == ERROR_BROKEN_PIPE || code == ERROR_PIPE_NOT_CONNECTED {
                Turn::End
            } else {
                Turn::Failed(code)
            },
        }
    }

    /// The pipe was written to: `outcome` is how many bytes went, or the error.
    pub fn write(&mut self, now: u64, outcome: Result<u32, u32>) -> (r: Turn)
        requires
            old(self).wf(),
        ensures
            final(self).wf(),
            (r, *final(self)) == old(self).writing(now, outcome),
    {
        match outcome {
            Ok(n) => if n == 0 {
                self.pause(now)
            } else {
                self.nap = FIRST_NAP;
                Turn::Moved(n)
            },
            Err(code) => Turn::Failed(code),
        }
    }
}

/// A conversation never sleeps once its time is up, and no nap is long, whatever the
/// other side does.
pub proof fn law_a_silent_peer_is_dropped(c: Conversation, now: u64, outcome: Result<u32, u32>)
    requires
        c.wf(),
    ensures
        now >= c.deadline ==> !(c.reading(now, outcome).0 is Nap) && !(c.writing(now, outcome).0 is Nap),
        match c.reading(now, outcome).0 {
            Turn::Nap(nap) => nap <= MAX_NAP,
            _ => true,
        },
        match c.writing(now, outcome).0 {
            Turn::Nap(nap) => nap <= MAX_NAP,
            _ => true,
        },
        c.reading(now, outcome).1.deadline == c.deadline,
        c.writing(now, outcome).1.deadline == c.deadline,
{
}

/// While nothing goes through, each nap is twice as long as the one before it, up to four
/// thousandths of a second; when something does, the next is a quarter of a thousandth
/// again. The end of the conversation stays where it was.
pub proof fn law_naps_grow_while_nothing_comes(c: Conversation, now: u64, n: u32)
    requires
        c.wf(),
        n > 0,
    ensures
        now < c.deadline ==> c.reading(now, Ok(0)).0 == Turn::Nap(c.nap),
        now < c.deadline && c.nap <= 2000 ==> c.reading(now, Ok(0)).1.nap == 2 * c.nap,
        now < c.deadline && c.nap > 2000 ==> c.reading(now, Ok(0)).1.nap == 4000,
        now >= c.deadline ==> c.reading(now, Ok(0)).0 == Turn::TimedOut,
        c.reading(now, Err(232)) == c.reading(now, Ok(0)),
        c.writing(now, Ok(0)) == c.reading(now, Ok(0)),
        c.reading(now, Ok(n)).0 == Turn::Moved(n),
        c.reading(now, Ok(n)).1 == (Conversation { deadline: c.deadline, nap: 250 }),
        c.writing(now, Ok(n)) == c.reading(now, Ok(n)),
{
}

/// A client that hung up is the end of what there is to read, and no failure; any other
/// error is one, and is told as it is.
pub proof fn law_an_error_ends_the_conversation(c: Conversation, now: u64, code: u32)
    ensures
        code == 109 || code == 233 ==> c.reading(now, Err(code)).0 == Turn::End,
        code != 109 && code != 233 && code != 232 ==> c.reading(now, Err(code)).0 == Turn::Failed(
            code,
        ),
        c.writing(now, Err(code)).0 == Turn::Failed(code),
        code != 232 ==> c.reading(now, Err(code)).1 == c,
        c.writing(now, Err(code)).1 == c,
{
}

} // verus!
