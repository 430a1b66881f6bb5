//! Picking from what Explorer has selected.
use vstd::prelude::*;

use crate::path::FilePath;

verus! {

/// How many selected items are looked at before giving up.
pub const MAX_CANDIDATES: usize = 32;

/// Explorer, asked for what is selected in its windows.
#[derive(Debug, Clone, Copy, PartialEq, Eq, Structural)]
pub struct Explorer;

impl Explorer {
    /// Explorer.
    pub fn new() -> (r: Explorer)
        ensures
            r == Explorer,
    {
        Explorer
    }

    /// What the strategy is called.
    pub fn describe(&self) -> (r: &'static str)
        ensures
            r@ == "Windows Explorer (COM)"@,
    {
        "Windows Explorer (COM)"
    }
}

/// Whether a window is the one that has the focus, or is inside it. Windows are
/// known by their handles, 0 being none. `inside` is whether the system says that
/// the one is inside the other; it is not asked of no window, nor of the same.
pub fn owns_focus<F: FnOnce() -> bool>(window: u64, foreground: u64, inside: F) -> (r: bool)
    requires
        window != 0 && window != foreground ==> call_requires(inside, ()),
    ensures
        window == 0 ==> !r,
        window != 0 && window == foreground ==> r,
        window != 0 && window != foreground ==> call_ensures(inside, (), r),
{
    if window == 0 {
        false
    } else if window == foreground {
        true
    } else {
        inside()
    }
}

/// Whether the item at `i` was passed over: it has no path, or one that is not
/// usable.
pub open spec fn passed_over<I: Fn(usize) -> Option<FilePath>, U: Fn(&FilePath) -> bool>(
    item: I,
    usable: U,
    i: usize,
) -> bool {
    ||| call_ensures(item, (i,), None)
    ||| exists|p: FilePath|
        call_ensures(item, (i,), Some(p)) && #[trigger] call_ensures(usable, (&p,), false)
}

/// The path to preview out of a selection of `count` items: the first that has a
/// path which is usable, among the first few. `item` gives the path of an item,
/// where it has one; it is not asked for any item behind the one that is picked.
pub fn pick_previewable<I: Fn(usize) -> Option<FilePath>, U: Fn(&FilePath) -> bool>(
    count: usize,
    item: I,
    usable: U,
) -> (r: Option<FilePath>)
    requires
        forall|i: usize| i < count ==> #[trigger] call_requires(item, (i,)),
        forall|p: FilePath| #[trigger] call_requires(usable, (&p,)),
    ensures
        match r {
            Some(p) => exists|i: usize|
                {
                    &&& i < count
                    &&& i < MAX_CANDIDATES
                    &&& #[trigger] call_ensures(item, (i,), Some(p))
                    &&& call_ensures(usable, (&p,), true)
                    &&& forall|j: usize| j < i ==> #[trigger] passed_over(item, usable, j)
                },
            None => forall|j: usize|
                j < count && j < MAX_CANDIDATES ==> #[trigger] passed_over(item, usable, j),
        },
{
    let mut i: usize = 0;
    while i < count && i < MAX_CANDIDATES
        invariant
            i <= count,
            i <= MAX_CANDIDATES,
            forall|i: usize| i < count ==> #[trigger] call_requires(item, (i,)),
            forall|p: FilePath| #[trigger] call_requires(usable, (&p,)),
            forall|j: usize| j < i ==> #[trigger] passed_over(item, usable, j),
        decreases count - i,
    {
        match item(i) {
            Some(p) => {
                if usable(&p) {
                    return Some(p);
                }
                assert(passed_over(item, usable, i));
            },
            None => {
                assert(passed_over(item, usable, i));
            },
        }
        i = i + 1;
    }
    None
}

} // verus!
