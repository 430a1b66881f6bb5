//! When a new width is worth laying the text out again for.
use vstd::prelude::*;

use super::REFLOW_THRESHOLD;

verus! {

/// How long a new width has to hold still, in milliseconds.
pub const REFLOW_SETTLE_MS: u64 = 120;

/// What the text was laid out for, and the width that it may be laid out for next.
#[derive(Debug, Clone, Copy)]
pub struct Reflow {
    /// The width on screen, in characters.
    pub laid: usize,
    /// Another width, and when it was first seen.
    pub waiting: Option<(usize, u64)>,
}

/// Whether two widths differ by enough to matter.
pub open spec fn apart(a: usize, b: usize) -> bool {
    a - b >= REFLOW_THRESHOLD || b - a >= REFLOW_THRESHOLD
}

impl Reflow {
    /// The text is laid out for `width`.
    pub fn new(width: usize) -> (r: Reflow)
        ensures
            r == (Reflow { laid: width, waiting: None }),
    {
        Reflow { laid: width, waiting: None }
    }

    /// What is known after the width `width` was seen at the time `now`.
    pub open spec fn seen(self, width: usize, now: u64) -> Reflow {
        if !apart(width, self.laid) {
            Reflow { waiting: None, ..self }
        } else if self.waiting is Some && (self.waiting->0).0 == width {
            self
        } else {
            Reflow { waiting: Some((width, now)), ..self }
        }
    }

    /// Whether the width `width`, seen at the time `now`, has held still for long
    /// enough.
    pub open spec fn holds(self, width: usize, now: u64) -> bool {
        &&& apart(width, self.laid)
        &&& self.waiting is Some
        &&& (self.waiting->0).0 == width
        &&& now - (self.waiting->0).1 >= REFLOW_SETTLE_MS
    }

    /// Sees the width `width` at the time `now`, and says whether it has settled.
    pub fn observe(&mut self, width: usize, now: u64) -> (r: bool)
        ensures
            r == old(self).holds(width, now),
            *final(self) == old(self).seen(width, now),
    {
        let gap: usize = if width >= self.laid {
            width - self.laid
        } else {
            self.laid - width
        };
        if gap < REFLOW_THRESHOLD {
            self.waiting = None;
            return false;
        }
        match self.waiting {
            Some((width_before, since)) => {
                if width_before == width {
                    return now >= since && now - since >= REFLOW_SETTLE_MS;
                }
            },
            None => {},
        }
        self.waiting = Some((width, now));
        false
    }
}

/// A width that holds still settles, and not before its time; one that changes with
/// every look never does.
pub proof fn law_only_a_width_that_holds_still_settles(
    reflow: Reflow,
    width: usize,
    other: usize,
    first: u64,
    then: u64,
)
    requires
        apart(width, reflow.laid),
        !(reflow.waiting is Some && (reflow.waiting->0).0 == width),
        other != width,
    ensures
        !reflow.holds(width, first),
        reflow.seen(width, first).holds(width, then) <==> then - first >= REFLOW_SETTLE_MS,
        !reflow.seen(width, first).holds(other, then),
        !reflow.seen(width, first).seen(other, first).holds(width, then),
{
}

/// A width that is within a hair of the one the text is laid out for is none to lay it
/// out for, and what was waited for before is forgotten.
pub proof fn law_a_hair_does_not_count(reflow: Reflow, width: usize, now: u64)
    requires
        width - reflow.laid < REFLOW_THRESHOLD,
        reflow.laid - width < REFLOW_THRESHOLD,
    ensures
        !reflow.holds(width, now),
        reflow.seen(width, now).waiting is None,
        reflow.seen(width, now).laid == reflow.laid,
{
}

/// A width that is further off is waited for from when it was first seen.
pub proof fn law_another_width_is_waited_for(reflow: Reflow, width: usize, now: u64)
    requires
        width - reflow.laid >= REFLOW_THRESHOLD || reflow.laid - width >= REFLOW_THRESHOLD,
    ensures
        reflow.seen(width, now).laid == reflow.laid,
        reflow.seen(width, now).waiting is Some,
        (reflow.seen(width, now).waiting->0).0 == width,
        reflow.waiting is Some && (reflow.waiting->0).0 == width ==> (reflow.seen(
            width,
            now,
        ).waiting->0).1 == (reflow.waiting->0).1,
        !(reflow.waiting is Some && (reflow.waiting->0).0 == width) ==> (reflow.seen(
            width,
            now,
        ).waiting->0).1 == now,
{
}

} // verus!
