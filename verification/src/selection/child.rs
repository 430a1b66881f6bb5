//! How long a program that is asked may take. A press of the hotkey waits for the
//! answer, so no program may hold it up: one that has not ended when its time is up
//! is stopped. All times are in milliseconds.
use vstd::prelude::*;
use vstd::utf8;

use crate::text::{self, lossy};

verus! {

/// How long a whole search may take.
pub const TOTAL_BUDGET: u64 = 200;

/// How long one program may take.
pub const CHILD_TIMEOUT: u64 = 100;

/// How often a program is looked after.
pub const POLL_INTERVAL: u64 = 2;

/// How much of an answer is read, in bytes.
pub const MAX_READ: u64 = 65536;

/// When a search that begins now has to be over.
pub fn search_deadline(now: u64) -> (r: u64)
    requires
        now + TOTAL_BUDGET <= u64::MAX,
    ensures
        r == now + TOTAL_BUDGET,
{
    now + TOTAL_BUDGET
}

/// When a program that is started now has to have ended: after its own time, or with
/// the search, whichever comes first. `None` where it is too late to start one.
pub open spec fn limit_of(now: u64, deadline: u64) -> Option<u64> {
    if now >= deadline {
        None
    } else if now + CHILD_TIMEOUT <= deadline {
        Some((now + CHILD_TIMEOUT) as u64)
    } else {
        Some(deadline)
    }
}

/// When a program that is started now has to have ended.
pub fn child_limit(now: u64, deadline: u64) -> (r: Option<u64>)
    requires
        now + CHILD_TIMEOUT <= u64::MAX,
    ensures
        r == limit_of(now, deadline),
{
    if now >= deadline {
        None
    } else if now + CHILD_TIMEOUT <= deadline {
        Some(now + CHILD_TIMEOUT)
    } else {
        Some(deadline)
    }
}

/// What a program wrote, as text: bytes that are not UTF-8 are replaced.
pub fn output_text(written: &[u8]) -> (r: String)
    ensures
        r@ == text::lossy_text(written@),
        utf8::valid_utf8(written@) ==> r@ == utf8::decode_utf8(written@),
{
    lossy(written)
}

/// What looking after a program came to.
#[derive(Debug, Clone, Copy, PartialEq, Eq, Structural)]
pub enum Polled {
    /// It has ended, and whether it ended well.
    Exited(bool),
    /// It is running.
    Running,
    /// It could not be looked after.
    Lost,
}

/// What to do about a program.
#[derive(Debug, Clone, Copy, PartialEq, Eq, Structural)]
pub enum Step {
    /// It is over, and whether there is an answer.
    End(bool),
    /// Sleep this long, and look after it again.
    Nap(u64),
    /// Stop it and wait for it to be gone. There is no answer.
    Kill,
}

/// What to do about a program that has to have ended by `until`.
pub open spec fn stepped(polled: Polled, now: u64, until: u64) -> Step {
    match polled {
        Polled::Exited(well) => Step::End(well),
        Polled::Running => if now >= until {
            Step::Kill
        } else {
            Step::Nap(POLL_INTERVAL)
        },
        Polled::Lost => Step::Kill,
    }
}

/// What to do about a program that has to have ended by `until`.
pub fn child_step(polled: Polled, now: u64, until: u64) -> (r: Step)
    ensures
        r == stepped(polled, now, until),
{
    match polled {
        Polled::Exited(well) => Step::End(well),
        Polled::Running => if now >= until {
            Step::Kill
        } else {
            Step::Nap(POLL_INTERVAL)
        },
        Polled::Lost => Step::Kill,
    }
}

/// No program holds a search up: none is started once the search is out of time, one
/// that is started is out of time with the search at the latest, and one that is out of
/// time is not waited for any more.
pub proof fn law_no_program_holds_up_a_search(start: u64, deadline: u64, polled: Polled, now: u64)
    requires
        start + CHILD_TIMEOUT <= u64::MAX,
    ensures
        limit_of(start, deadline) is None <==> start >= deadline,
        match limit_of(start, deadline) {
            Some(until) => {
                &&& start < until <= deadline
                &&& until <= start + CHILD_TIMEOUT
                &&& stepped(polled, now, until) is Nap ==> now < until
                &&& now >= until ==> stepped(polled, now, until) is End || stepped(
                    polled,
                    now,
                    until,
                ) is Kill
            },
            None => true,
        },
{
}

/// A program that has ended ends the wait with whether it ended well; one that runs is
/// waited for until its time is up and stopped then; one that is lost is stopped.
pub proof fn law_what_is_done_about_a_program(well: bool, now: u64, until: u64)
    ensures
        stepped(Polled::Exited(well), now, until) == Step::End(well),
        now < until ==> stepped(Polled::Running, now, until) is Nap,
        now >= until ==> stepped(Polled::Running, now, until) == Step::Kill,
        stepped(Polled::Lost, now, until) == Step::Kill,
        now < until && until - now >= 2 ==> stepped(Polled::Running, now, until) == Step::Nap(2),
{
}

/// A program has a tenth of a second, or as much of it as is left of the search.
pub proof fn law_a_program_has_its_time(start: u64, deadline: u64)
    requires
        start < deadline,
        start + 100 <= u64::MAX,
    ensures
        limit_of(start, deadline) is Some,
        deadline - start >= 100 ==> limit_of(start, deadline)->0 == start + 100,
        deadline - start < 100 ==> limit_of(start, deadline)->0 == deadline,
{
}

} // verus!
