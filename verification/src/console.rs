//! Where a process with no console of its own prints.
use vstd::prelude::*;

use crate::config::Platform;

verus! {

/// What there was to print on.
#[derive(Debug, Clone, Copy, PartialEq, Eq, Structural)]
pub enum Attached {
    /// The platform needs no attaching.
    NotWindows,
    /// The console of the terminal that started the process.
    Parent,
    /// Nothing: the process was not started from a terminal.
    NoConsole,
}

/// What is known of a standard stream.
#[derive(Debug, Clone, Copy, PartialEq, Eq, Structural)]
pub struct StdHandle {
    /// The process was given one.
    pub set: bool,
    /// It can be written to.
    pub live: bool,
}

impl Default for StdHandle {
    /// None at all.
    fn default() -> (r: StdHandle)
        ensures
            !r.set,
            !r.live,
    {
        StdHandle { set: false, live: false }
    }
}

/// Whether a stream is to be pointed elsewhere: only where it would not work as it
/// is. One that the shell set up stays.
pub fn needs_rebind(handle: StdHandle) -> (r: bool)
    ensures
        r == (!handle.set || !handle.live),
{
    !(handle.set && handle.live)
}

/// One line on what there was to print on.
pub open spec fn description(attached: Attached) -> Seq<char> {
    match attached {
        Attached::NotWindows => "the terminal that started this process (nothing to attach)"@,
        Attached::Parent => "attached to the console of the terminal that started this process"@,
        Attached::NoConsole =>
            "no console — launched from Explorer, the Start Menu or a shortcut, so output goes nowhere"@,
    }
}

/// One line on what there was to print on.
pub fn describe(attached: Attached) -> (r: &'static str)
    ensures
        r@ == description(attached),
{
    match attached {
        Attached::NotWindows => "the terminal that started this process (nothing to attach)",
        Attached::Parent => "attached to the console of the terminal that started this process",
        Attached::NoConsole =>
            "no console — launched from Explorer, the Start Menu or a shortcut, so output goes nowhere",
    }
}

/// What attaching came to: `found` is whether the console of the parent could be
/// had. Only one platform has anything to attach.
pub fn attach(platform: Platform, found: bool) -> (r: Attached)
    ensures
        r == (if platform == Platform::Unix {
            Attached::NotWindows
        } else if found {
            Attached::Parent
        } else {
            Attached::NoConsole
        }),
{
    match platform {
        Platform::Unix => Attached::NotWindows,
        Platform::Windows => if found {
            Attached::Parent
        } else {
            Attached::NoConsole
        },
    }
}

/// The device that a stream which points nowhere is pointed at; `None` where there
/// is nothing to do.
pub fn device(attached: Attached) -> (r: Option<&'static str>)
    ensures
        match attached {
            Attached::NotWindows => r is None,
            Attached::Parent => r is Some && r->0@ == "CONOUT$"@,
            Attached::NoConsole => r is Some && r->0@ == "NUL"@,
        },
{
    match attached {
        Attached::NotWindows => None,
        Attached::Parent => Some("CONOUT$"),
        Attached::NoConsole => Some("NUL"),
    }
}

} // verus!
