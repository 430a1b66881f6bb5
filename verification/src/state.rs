//! The state of the window that has no picture: which request is current, which
//! file comes next, and what closing means.
use vstd::prelude::*;

use crate::path::{self, FilePath, PathView};
use crate::text::{self, fold, push_decimal, push_str, spells, string_of};

verus! {

// ---------------------------------------------------------------------------
// Requests
// ---------------------------------------------------------------------------
/// Hands out request ids that only grow, and knows which request is in flight.
///
/// Starting a request cancels the one before it, and a result whose id is not
/// the current one is dropped: it belongs to a file the user has moved past.
#[derive(Debug)]
pub struct RequestTracker {
    next_id: u64,
    in_flight: Option<u64>,
}

impl RequestTracker {
    /// The id given out last; 0 before the first.
    pub closed spec fn last_id(&self) -> u64 {
        self.next_id
    }

    /// The request in flight.
    pub closed spec fn current(&self) -> Option<u64> {
        self.in_flight
    }

    /// The request in flight is one that was given out.
    pub open spec fn wf(&self) -> bool {
        self.current() is Some ==> 0 < self.current()->0 <= self.last_id()
    }

    /// A tracker that has given out no id.
    pub fn new() -> (r: RequestTracker)
        ensures
            r.wf(),
            r.last_id() == 0,
            r.current() is None,
    {
        RequestTracker { next_id: 0, in_flight: None }
    }

    /// The id given out last; 0 before the first.
    pub fn last(&self) -> (r: u64)
        ensures
            r == self.last_id(),
    {
        self.next_id
    }

    /// Starts a new request. Returns its id, and the id of the request that it
    /// cancels: the one that was in flight.
    pub fn begin(&mut self) -> (r: (u64, Option<u64>))
        requires
            old(self).wf(),
            old(self).last_id() < u64::MAX,
        ensures
            final(self).wf(),
            r.0 == old(self).last_id() + 1,
            r.1 == old(self).current(),
            final(self).last_id() == r.0,
            final(self).current() == Some(r.0),
    {
        let cancelled = self.in_flight.take();
        self.next_id = self.next_id + 1;
        self.in_flight = Some(self.next_id);
        (self.next_id, cancelled)
    }

    /// Whether a request is outstanding.
    pub fn is_pending(&self) -> (r: bool)
        ensures
            r == self.current() is Some,
    {
        self.in_flight.is_some()
    }

    /// Whether a result with this id is to be shown. Accepting it clears the
    /// request in flight, so a second result for the same id is refused.
    pub fn accept(&mut self, id: u64) -> (r: bool)
        requires
            old(self).wf(),
        ensures
            final(self).wf(),
            r == (old(self).current() == Some(id)),
            final(self).last_id() == old(self).last_id(),
            final(self).current() == (if r {
                None
            } else {
                old(self).current()
            }),
    {
        match self.in_flight {
            Some(current) => {
                if current == id {
                    self.in_flight = None;
                    true
                } else {
                    false
                }
            },
            None => false,
        }
    }

    /// Cancels the request in flight without starting another. Returns its id.
    pub fn cancel_all(&mut self) -> (r: Option<u64>)
        requires
            old(self).wf(),
        ensures
            final(self).wf(),
            r == old(self).current(),
            final(self).current() is None,
            final(self).last_id() == old(self).last_id(),
    {
        self.in_flight.take()
    }
}

// ---------------------------------------------------------------------------
// The files next to this one
// ---------------------------------------------------------------------------
/// The files that live next to the previewed path.
#[derive(Debug)]
pub struct Siblings {
    files: Vec<FilePath>,
    index: Option<usize>,
    wrap: bool,
}

/// Where `current` first stands among `files`.
pub open spec fn position_of(files: Seq<PathView>, current: PathView) -> Option<nat>
    decreases files.len(),
{
    if files.len() == 0 {
        None
    } else if position_of(files.drop_last(), current) is Some {
        position_of(files.drop_last(), current)
    } else if path::same_path(files.last(), current) {
        Some((files.len() - 1) as nat)
    } else {
        None
    }
}

/// The place that a step of `delta` leads to, of `len` places: none where it
/// would leave the list and does not wrap, or where it leads nowhere else.
pub open spec fn step_to(len: nat, index: Option<nat>, wrap: bool, delta: int) -> Option<nat> {
    if len == 0 {
        None
    } else {
        match index {
            Some(i) => {
                let raw = i + delta;
                let to = if 0 <= raw < len {
                    Some(raw as nat)
                } else if wrap {
                    Some((raw % (len as int)) as nat)
                } else {
                    None
                };
                if to == Some(i) {
                    None
                } else {
                    to
                }
            },
            None => if delta >= 0 {
                Some(0)
            } else {
                Some((len - 1) as nat)
            },
        }
    }
}

impl Siblings {
    /// The files, in order.
    pub closed spec fn files(&self) -> Seq<PathView> {
        path::path_bytes(self.files@)
    }

    /// The place of the current file.
    pub closed spec fn index(&self) -> Option<nat> {
        match self.index {
            Some(i) => Some(i as nat),
            None => None,
        }
    }

    /// Whether a step past an end comes in at the other.
    pub closed spec fn wraps(&self) -> bool {
        self.wrap
    }

    /// The current place is a place in the list.
    pub open spec fn wf(&self) -> bool {
        self.index() is Some ==> self.index()->0 < self.files().len()
    }

    /// The list `files`, at `current` where it is one of them.
    pub fn from_files(files: Vec<FilePath>, current: &FilePath, wrap: bool) -> (r: Siblings)
        ensures
            r.wf(),
            r.files() == path::path_bytes(files@),
            r.wraps() == wrap,
            r.index() == position_of(path::path_bytes(files@), current@),
    {
        let mut i: usize = 0;
        let mut index: Option<usize> = None;
        let ghost all = path::path_bytes(files@);
        while i < files.len() && index.is_none()
            invariant
                i <= files.len(),
                all == path::path_bytes(files@),
                index is None ==> position_of(all.subrange(0, i as int), current@) is None,
                index is Some ==> index->0 < files.len() && position_of(
                    all.subrange(0, i as int),
                    current@,
                ) == Some(index->0 as nat),
            decreases files.len() - i,
        {
            assert(all.subrange(0, i + 1).drop_last() == all.subrange(0, i as int));
            if files[i].same(current) {
                index = Some(i);
            }
            i = i + 1;
        }
        proof {
            lemma_position_stays(all, current@, i as int);
        }
        Siblings { files, index, wrap }
    }

    /// How many files there are.
    pub fn len(&self) -> (r: usize)
        ensures
            r == self.files().len(),
    {
        self.files.len()
    }

    /// Whether there are none.
    pub fn is_empty(&self) -> (r: bool)
        ensures
            r == (self.files().len() == 0),
    {
        self.files.len() == 0
    }

    /// The place of the current file, counted from 1.
    pub fn position(&self) -> (r: Option<usize>)
        requires
            self.wf(),
        ensures
            r is Some <==> self.index() is Some,
            r is Some ==> r->0 == self.index()->0 + 1,
    {
        match self.index {
            Some(i) => {
                let n: usize = self.files.len();
                assert(i < n);
                Some(i + 1)
            },
            None => None,
        }
    }

    /// Steps by `delta` (-1 for the previous file, 1 for the next). Returns the
    /// path stepped to and stays there; `None` where there is nowhere to go.
    pub fn step(&mut self, delta: isize) -> (r: Option<FilePath>)
        requires
            old(self).wf(),
        ensures
            final(self).wf(),
            final(self).files() == old(self).files(),
            final(self).wraps() == old(self).wraps(),
            match step_to(
                old(self).files().len(),
                old(self).index(),
                old(self).wraps(),
                delta as int,
            ) {
                Some(to) => {
                    &&& to < old(self).files().len()
                    &&& final(self).index() == Some(to)
                    &&& r is Some
                    &&& r->0@ == old(self).files()[to as int]
                },
                None => r is None && final(self).index() == old(self).index(),
            },
    {
        let len: usize = self.files.len();
        if len == 0 {
            return None;
        }
        let next: usize = match self.index {
            Some(i) => {
                let raw: i128 = i as i128 + delta as i128;
                if 0 <= raw && raw < len as i128 {
                    raw as usize
                } else if self.wrap {
                    let k: u128 = if raw >= 0 {
                        raw as u128 % len as u128
                    } else {
                        let back: u128 = (-raw) as u128 % len as u128;
                        proof {
                            lemma_mod_of_negative(raw as int, len as int);
                        }
                        if back == 0 {
                            0
                        } else {
                            len as u128 - back
                        }
                    };
                    assert(k == (raw as int) % (len as int));
                    k as usize
                } else {
                    return None;
                }
            },
            None => if delta >= 0 {
                0
            } else {
                len - 1
            },
        };
        match self.index {
            Some(i) => if i == next {
                return None;
            },
            None => {},
        }
        self.index = Some(next);
        Some(self.files[next].copy())
    }
}

/// The remainder of a negative number, by the remainder of its opposite.
proof fn lemma_mod_of_negative(x: int, d: int)
    requires
        x < 0,
        d > 0,
    ensures
        x % d == (if (-x) % d == 0 {
            0
        } else {
            d - (-x) % d
        }),
{
    let q = (-x) / d;
    let r = (-x) % d;
    vstd::arithmetic::div_mod::lemma_fundamental_div_mod(-x, d);
    if r == 0 {
        assert(x == (-q) * d + 0) by (nonlinear_arith)
            requires
                -x == d * q + r,
                r == 0,
        ;
        vstd::arithmetic::div_mod::lemma_fundamental_div_mod_converse(x, d, -q, 0);
    } else {
        assert(x == (-q - 1) * d + (d - r)) by (nonlinear_arith)
            requires
                -x == d * q + r,
        ;
        vstd::arithmetic::div_mod::lemma_fundamental_div_mod_converse(x, d, -q - 1, d - r);
    }
}

/// Files behind the first match do not move it.
proof fn lemma_position_stays(files: Seq<PathView>, current: PathView, n: int)
    requires
        0 <= n <= files.len(),
        n == files.len() || position_of(files.subrange(0, n), current) is Some,
    ensures
        position_of(files, current) == position_of(files.subrange(0, n), current),
    decreases files.len() - n,
{
    if n == files.len() {
        assert(files.subrange(0, n) == files);
    } else {
        assert(files.subrange(0, n + 1).drop_last() == files.subrange(0, n));
        lemma_position_stays(files, current, n + 1);
    }
}

// ---------------------------------------------------------------------------
// What closing means
// ---------------------------------------------------------------------------
/// How this process was started.
#[derive(Debug, Clone, Copy, PartialEq, Eq, Structural)]
pub enum Mode {
    /// Started for one path: a window over whatever the user was doing.
    Popup,
    /// Started with no path: a window that the user opened deliberately.
    App,
    /// Resident: the window hides, the process stays.
    Daemon,
}

impl Mode {
    /// Whether a window started this way looks for a newer version.
    pub fn checks_updates(self) -> (r: bool)
        ensures
            r == (self == Mode::App || self == Mode::Daemon),
    {
        match self {
            Mode::App | Mode::Daemon => true,
            Mode::Popup => false,
        }
    }

    /// What the window is once the user opens something through it.
    pub open spec fn promotion(self) -> Mode {
        if self == Mode::Daemon {
            Mode::Daemon
        } else {
            Mode::App
        }
    }

    /// A popup becomes an application once the user opens something through it;
    /// a daemon stays a daemon.
    pub fn promoted(self) -> (r: Mode)
        ensures
            r == self.promotion(),
    {
        match self {
            Mode::Popup | Mode::App => Mode::App,
            Mode::Daemon => Mode::Daemon,
        }
    }
}

/// What dismissing does.
#[derive(Debug, Clone, Copy, PartialEq, Eq, Structural)]
pub enum Close {
    /// Close the window.
    Window,
    /// Hide the window, stay resident.
    Hide,
    /// Drop the preview and show the home screen.
    Home,
    /// Nothing: there is nothing to dismiss.
    Nothing,
}

/// What dismissing does in `mode`, with or without a file on screen.
pub open spec fn closing(mode: Mode, showing: bool) -> Close {
    match mode {
        Mode::Daemon => Close::Hide,
        Mode::Popup => Close::Window,
        Mode::App => if showing {
            Close::Home
        } else {
            Close::Nothing
        },
    }
}

/// What Escape does. `showing` is whether a file is on screen, as opposed to the
/// home screen.
pub fn close_action(mode: Mode, showing: bool) -> (r: Close)
    ensures
        r == closing(mode, showing),
{
    match mode {
        Mode::Daemon => Close::Hide,
        Mode::Popup => Close::Window,
        Mode::App => if showing {
            Close::Home
        } else {
            Close::Nothing
        },
    }
}

/// The rule that a window follows: a daemon that nobody summoned is an
/// application.
pub open spec fn stance(mode: Mode, summoned: bool) -> Mode {
    if mode == Mode::Daemon && !summoned {
        Mode::App
    } else {
        mode
    }
}

/// Which rule this window follows now. `summoned` is whether a key press or a
/// handoff put a file up, as opposed to the user asking for the window itself.
pub fn posture(mode: Mode, summoned: bool) -> (r: Mode)
    ensures
        r == stance(mode, summoned),
{
    match mode {
        Mode::Daemon => if summoned {
            Mode::Daemon
        } else {
            Mode::App
        },
        other => other,
    }
}

/// What closing the window does, where there is more than one answer.
#[derive(Debug, Clone, Copy, PartialEq, Eq, Structural)]
pub enum OnClose {
    /// Ask.
    Ask,
    /// Put the window away and stay resident.
    Tray,
    /// End the process.
    Quit,
}

impl Default for OnClose {
    fn default() -> (r: OnClose)
        ensures
            r == OnClose::Ask,
    {
        OnClose::Ask
    }
}

/// The answer that `name` stands for, once the space around it and its case are
/// set aside.
pub open spec fn on_close_named(name: Seq<char>) -> Option<OnClose> {
    let n = text::folded(name);
    if n == "ask"@ {
        Some(OnClose::Ask)
    } else if n == "tray"@ || n == "minimize"@ || n == "hide"@ {
        Some(OnClose::Tray)
    } else if n == "quit"@ || n == "exit"@ {
        Some(OnClose::Quit)
    } else {
        None
    }
}

impl OnClose {
    /// How the answer is written.
    pub open spec fn name(self) -> Seq<char> {
        match self {
            OnClose::Ask => "ask"@,
            OnClose::Tray => "tray"@,
            OnClose::Quit => "quit"@,
        }
    }

    /// Every name that the settings file documents.
    pub fn names() -> (r: [&'static str; 3])
        ensures
            r@[0]@ == "ask"@,
            r@[1]@ == "tray"@,
            r@[2]@ == "quit"@,
    {
        ["ask", "tray", "quit"]
    }

    /// The answer that `value` stands for; `None` where it stands for none.
    pub fn parse(value: &str) -> (r: Option<OnClose>)
        ensures
            r == on_close_named(value@),
    {
        let n = fold(value);
        let n = n.as_slice();
        if spells(n, "ask") {
            Some(OnClose::Ask)
        } else if spells(n, "tray") || spells(n, "minimize") || spells(n, "hide") {
            Some(OnClose::Tray)
        } else if spells(n, "quit") || spells(n, "exit") {
            Some(OnClose::Quit)
        } else {
            None
        }
    }

    /// How the answer is written to the file.
    pub fn as_str(self) -> (r: &'static str)
        ensures
            r@ == self.name(),
    {
        match self {
            OnClose::Ask => "ask",
            OnClose::Tray => "tray",
            OnClose::Quit => "quit",
        }
    }
}

/// What a request to close means for this process.
#[derive(Debug, Clone, Copy, PartialEq, Eq, Structural)]
pub enum Intent {
    /// Put the question to the user and wait.
    Ask,
    /// Hide the window, stay resident.
    Tray,
    /// End the process.
    Quit,
}

/// What a request to close means: only a daemon has anything to stay for, only
/// one with an icon has a question to ask, and an answer once given holds.
pub open spec fn intent(mode: Mode, tray: bool, pref: OnClose) -> Intent {
    if mode != Mode::Daemon || pref == OnClose::Quit {
        Intent::Quit
    } else if tray && pref == OnClose::Ask {
        Intent::Ask
    } else {
        Intent::Tray
    }
}

/// The rule of the close button. `tray` is whether an icon is on screen.
pub fn close_intent(mode: Mode, tray: bool, pref: OnClose) -> (r: Intent)
    ensures
        r == intent(mode, tray, pref),
{
    match (mode, tray, pref) {
        (Mode::Daemon, _, OnClose::Quit) => Intent::Quit,
        (Mode::Daemon, true, OnClose::Ask) => Intent::Ask,
        (Mode::Daemon, _, _) => Intent::Tray,
        _ => Intent::Quit,
    }
}

/// Whether decoding a picture again at `wanted` pixels is worth its cost: the
/// surface can show more than there is, and the last decode gave all that was
/// asked of it.
pub fn worth_rescaling(wanted: u32, have: u32, asked: u32) -> (r: bool)
    ensures
        r == (have < wanted && asked <= have),
{
    wanted > have && have >= asked
}

// ---------------------------------------------------------------------------
// Sizes
// ---------------------------------------------------------------------------
/// `n / d`, rounded to the nearest whole number, a tie to the even one.
pub open spec fn nearest(n: nat, d: nat) -> nat {
    let q = n / d;
    let r = n % d;
    if 2 * r > d || (2 * r == d && q % 2 == 1) {
        q + 1
    } else {
        q
    }
}

/// The distance between neighbouring numbers around `n` that a double can hold.
pub open spec fn double_step(n: nat) -> nat
    decreases n,
{
    if n < 0x20_0000_0000_0000 {
        1
    } else {
        2 * double_step(n / 2)
    }
}

/// `n` as a double holds it.
pub open spec fn as_double(n: nat) -> nat {
    nearest(n, double_step(n)) * double_step(n)
}

/// Which unit a size is shown in: 0 for bytes, then steps of 1024.
pub open spec fn unit_of(size: nat) -> nat {
    if size < 0x400 {
        0
    } else if size < 0x10_0000 {
        1
    } else if size < 0x4000_0000 {
        2
    } else if size < 0x100_0000_0000 {
        3
    } else {
        4
    }
}

/// How many bytes a unit stands for.
pub open spec fn unit_bytes(unit: nat) -> nat {
    if unit == 0 {
        1
    } else if unit == 1 {
        0x400
    } else if unit == 2 {
        0x10_0000
    } else if unit == 3 {
        0x4000_0000
    } else {
        0x100_0000_0000
    }
}

/// How a unit is written.
pub open spec fn unit_name(unit: nat) -> Seq<char> {
    if unit == 0 {
        "B"@
    } else if unit == 1 {
        "KB"@
    } else if unit == 2 {
        "MB"@
    } else if unit == 3 {
        "GB"@
    } else {
        "TB"@
    }
}

/// A byte count for people: whole bytes, or one decimal of a larger unit.
pub open spec fn size_text(bytes: nat) -> Seq<char> {
    let size = as_double(bytes);
    let unit = unit_of(size);
    if unit == 0 {
        text::decimal(bytes) + " B"@
    } else {
        let tenths = nearest(size * 10, unit_bytes(unit));
        text::decimal(tenths / 10) + "."@ + text::decimal(tenths % 10) + " "@ + unit_name(unit)
    }
}

fn to_nearest(n: u128, d: u128) -> (r: u128)
    requires
        0 < d <= 0x100_0000_0000,
        n < 0x1_0000_0000_0000_0000_0000,
    ensures
        r == nearest(n as nat, d as nat),
        r <= n / d + 1,
{
    let q: u128 = n / d;
    let r: u128 = n % d;
    assert(q <= n) by (nonlinear_arith)
        requires
            q == n / d,
            d > 0,
    ;
    if 2 * r > d || (2 * r == d && q % 2 == 1) {
        q + 1
    } else {
        q
    }
}

/// A byte count for people: `0 B`, `2.0 KB`, `3.0 MB`.
pub fn human_size(bytes: u64) -> (r: String)
    ensures
        r@ == size_text(bytes as nat),
{
    let mut step: u128 = 1;
    let mut top: u64 = bytes;
    while top >= 0x20_0000_0000_0000
        invariant
            double_step(bytes as nat) == step * double_step(top as nat),
            1 <= step,
            step == 1 || top >= 0x10_0000_0000_0000,
            step * top <= bytes,
        decreases top,
    {
        assert(step <= bytes) by (nonlinear_arith)
            requires
                step * top <= bytes,
                top >= 1,
                step >= 1,
        ;
        assert(step * (2 * double_step((top / 2) as nat)) == (2 * step) * double_step(
            (top / 2) as nat,
        )) by (nonlinear_arith);
        assert((2 * step) * (top / 2) <= step * top) by (nonlinear_arith)
            requires
                step >= 1,
        ;
        step = 2 * step;
        top = top / 2;
    }
    assert(step * double_step(top as nat) == step) by (nonlinear_arith)
        requires
            double_step(top as nat) == 1,
    ;
    assert(step <= 0x1000) by {
        if step > 1 {
            assert(step * 0x10_0000_0000_0000 <= step * top) by (nonlinear_arith)
                requires
                    top >= 0x10_0000_0000_0000,
                    step >= 1,
            ;
        }
    }
    let whole: u128 = to_nearest(bytes as u128, step);
    assert(whole * step <= bytes + step) by (nonlinear_arith)
        requires
            whole <= (bytes as u128) / step + 1,
            step >= 1,
    ;
    let size: u128 = whole * step;
    assert(size == as_double(bytes as nat));
    let mut out: Vec<char> = Vec::new();
    if size < 0x400 {
        push_decimal(&mut out, bytes);
        push_str(&mut out, " B");
    } else {
        let (unit, name): (u128, &str) = if size < 0x10_0000 {
            (0x400, "KB")
        } else if size < 0x4000_0000 {
            (0x10_0000, "MB")
        } else if size < 0x100_0000_0000 {
            (0x4000_0000, "GB")
        } else {
            (0x100_0000_0000, "TB")
        };
        let tenths: u128 = to_nearest(size * 10, unit);
        assert((size * 10) / (unit as int) <= (size * 10) / 0x400) by (nonlinear_arith)
            requires
                unit >= 0x400,
                size >= 0,
        ;
        push_decimal(&mut out, (tenths / 10) as u64);
        push_str(&mut out, ".");
        push_decimal(&mut out, (tenths % 10) as u64);
        push_str(&mut out, " ");
        push_str(&mut out, name);
    }
    assert(out@ =~= size_text(bytes as nat));
    string_of(out.as_slice())
}

// ---------------------------------------------------------------------------
// Laws
// ---------------------------------------------------------------------------
/// Every answer to the close question is read back from how it is written.
pub proof fn law_on_close_names_round_trip(answer: OnClose)
    ensures
        on_close_named(answer.name()) == Some(answer),
{
    reveal_strlit("ask");
    reveal_strlit("tray");
    reveal_strlit("quit");
    reveal_strlit("minimize");
    reveal_strlit("hide");
    reveal_strlit("exit");
    text::lemma_folded_plain(answer.name());
    assert("ask"@.len() == 3 && "tray"@.len() == 4 && "quit"@.len() == 4);
    assert("quit"@[0] != "tray"@[0] && "quit"@[0] != "hide"@[0]);
}

/// A step can be taken back: from where a step of `delta` leads, the opposite
/// step leads to where it came from.
pub proof fn law_a_step_can_be_taken_back(len: nat, i: nat, wrap: bool, delta: int)
    requires
        i < len,
        step_to(len, Some(i), wrap, delta) is Some,
    ensures
        step_to(len, Some(i), wrap, delta)->0 < len,
        wrap || -len < delta < len,
        step_to(len, Some(step_to(len, Some(i), wrap, delta)->0), wrap, -delta) == Some(i),
{
    let l = len as int;
    let to = step_to(len, Some(i), wrap, delta)->0 as int;
    let raw = i + delta;
    if 0 <= raw < len {
    } else {
        let q = raw / l;
        vstd::arithmetic::div_mod::lemma_fundamental_div_mod(raw, l);
        assert(to - delta == (-q) * l + i) by (nonlinear_arith)
            requires
                raw == l * q + to,
                raw == i + delta,
        ;
        vstd::arithmetic::div_mod::lemma_fundamental_div_mod_converse(to - delta, l, -q, i as int);
        if 0 <= to - delta < l {
            vstd::arithmetic::div_mod::lemma_small_mod((to - delta) as nat, len);
        }
    }
}

/// Steps that wrap always lead somewhere, unless they lead back to the same
/// place.
pub proof fn law_wrapping_only_stops_in_place(len: nat, i: nat, delta: int)
    requires
        i < len,
    ensures
        step_to(len, Some(i), true, delta) is None <==> (i + delta) % (len as int) == i,
{
    if 0 <= i + delta < len {
        vstd::arithmetic::div_mod::lemma_small_mod((i + delta) as nat, len);
    }
}

/// A window that the user opened something through is not thrown away by
/// Escape, whatever it was started as.
pub proof fn law_a_promoted_window_is_kept(mode: Mode, showing: bool)
    ensures
        closing(mode.promotion(), showing) != Close::Window,
        mode.promotion().promotion() == mode.promotion(),
        mode == Mode::Daemon ==> mode.promotion() == Mode::Daemon,
{
}

/// A resident window follows the rule of an application unless it was summoned,
/// and no other window has a rule to choose.
pub proof fn law_only_a_daemon_has_a_posture(mode: Mode, summoned: bool)
    ensures
        mode != Mode::Daemon ==> stance(mode, summoned) == mode,
        stance(Mode::Daemon, true) == Mode::Daemon,
        stance(Mode::Daemon, false) == Mode::App,
        closing(stance(Mode::Daemon, summoned), true) != Close::Window,
{
}

/// The question is put only by a resident process with an icon, and an answer
/// once given is not asked for again: "quit" ends the process even where the
/// icon is gone.
pub proof fn law_an_answer_is_kept(mode: Mode, tray: bool, pref: OnClose)
    ensures
        intent(mode, tray, pref) == Intent::Ask <==> mode == Mode::Daemon && tray && pref
            == OnClose::Ask,
        pref == OnClose::Quit ==> intent(mode, tray, pref) == Intent::Quit,
        mode == Mode::Daemon && pref == OnClose::Tray ==> intent(mode, tray, pref) == Intent::Tray,
        mode != Mode::Daemon ==> intent(mode, tray, pref) == Intent::Quit,
{
}

/// A result that came late is not shown: once another request has begun, the
/// older id is not the current one.
pub proof fn law_an_older_request_is_stale(before: RequestTracker, after: RequestTracker, id: u64)
    requires
        before.wf(),
        before.current() == Some(id),
        after.last_id() == before.last_id() + 1,
        after.current() == Some(after.last_id()),
    ensures
        after.current() != Some(id),
{
}

/// The current file is found where it first stands: it is the one at that place, none
/// before is the same, and where it is not found none is.
pub proof fn law_the_current_file_is_found(files: Seq<PathView>, current: PathView)
    ensures
        match position_of(files, current) {
            Some(i) => {
                &&& i < files.len()
                &&& path::same_path(files[i as int], current)
                &&& forall|k: int| 0 <= k < i ==> !path::same_path(#[trigger] files[k], current)
            },
            None => forall|k: int|
                0 <= k < files.len() ==> !path::same_path(#[trigger] files[k], current),
        },
    decreases files.len(),
{
    if files.len() > 0 {
        let before = files.drop_last();
        law_the_current_file_is_found(before, current);
        if position_of(before, current) is None {
            assert forall|k: int| 0 <= k < files.len() - 1 implies !path::same_path(
                #[trigger] files[k],
                current,
            ) by {
                assert(before[k] == files[k]);
            }
        } else {
            let i = position_of(before, current)->0;
            assert(before[i as int] == files[i as int]);
            assert forall|k: int| 0 <= k < i implies !path::same_path(#[trigger] files[k], current) by {
                assert(before[k] == files[k]);
            }
        }
    }
}

/// One step forward leads to the next place and one step back to the one before. At the
/// ends there is nowhere to go, or, where steps wrap, the other end; and who stands
/// nowhere comes in at the end that the step comes from.
pub proof fn law_a_step_leads_to_the_next_place(len: nat, i: nat, wrap: bool)
    requires
        i < len,
    ensures
        i + 1 < len ==> step_to(len, Some(i), wrap, 1) == Some(i + 1),
        i > 0 ==> step_to(len, Some(i), wrap, -1) == Some((i - 1) as nat),
        !wrap && i + 1 == len ==> step_to(len, Some(i), wrap, 1) is None,
        !wrap && i == 0 ==> step_to(len, Some(i), wrap, -1) is None,
        wrap && len > 1 && i + 1 == len ==> step_to(len, Some(i), wrap, 1) == Some(0nat),
        wrap && len > 1 && i == 0 ==> step_to(len, Some(i), wrap, -1) == Some((len - 1) as nat),
        step_to(len, None, wrap, 1) == Some(0nat),
        step_to(len, None, wrap, -1) == Some((len - 1) as nat),
        step_to(0, None, wrap, 1) is None,
        step_to(0, None, wrap, -1) is None,
{
    if wrap && len > 1 {
        vstd::arithmetic::div_mod::lemma_fundamental_div_mod_converse(len as int, len as int, 1, 0);
        assert(-1 == (-1) * (len as int) + (len - 1)) by (nonlinear_arith);
        vstd::arithmetic::div_mod::lemma_fundamental_div_mod_converse(-1, len as int, -1, len - 1);
    }
}

/// A step of any length leads where counting leads: to the place that is as far off as
/// the step is long, going round as often as it takes where steps wrap, and nowhere
/// where it would leave the list and they do not.
pub proof fn law_a_step_counts_places(len: nat, i: nat, wrap: bool, delta: int)
    requires
        i < len,
    ensures
        match step_to(len, Some(i), wrap, delta) {
            Some(to) => {
                &&& to < len
                &&& to != i
                &&& !wrap ==> to == i + delta
                &&& exists|rounds: int| to + #[trigger] (rounds * len) == i + delta
            },
            None => {
                &&& !wrap ==> i + delta < 0 || i + delta >= len || delta == 0
                &&& wrap ==> exists|rounds: int| #[trigger] (rounds * len) == delta
            },
        },
{
    let raw = i + delta;
    let d = len as int;
    vstd::arithmetic::div_mod::lemma_fundamental_div_mod(raw, d);
    let q = raw / d;
    assert(q * d == d * q) by (nonlinear_arith);
    assert(0 * d == 0) by (nonlinear_arith);
    if 0 <= raw < len {
        assert(raw + 0 * len == raw);
    } else if wrap {
        assert(raw % d + q * len == raw);
    }
}

/// What Escape does: a resident window is always hidden and a popup always closed; an
/// application goes home from a file, and does nothing where it is at home.
pub proof fn law_what_escape_does(showing: bool)
    ensures
        closing(Mode::Daemon, showing) == Close::Hide,
        closing(Mode::Popup, showing) == Close::Window,
        closing(Mode::App, true) == Close::Home,
        closing(Mode::App, false) == Close::Nothing,
        Mode::Popup.promotion() == Mode::App,
        Mode::App.promotion() == Mode::App,
{
}

/// A resident process that has no icon to go to and no answer to go by hides all the
/// same: it is ended only by an answer that says so.
pub proof fn law_only_an_answer_ends_a_resident_process(tray: bool, pref: OnClose)
    ensures
        intent(Mode::Daemon, tray, pref) == Intent::Quit <==> pref == OnClose::Quit,
        intent(Mode::Daemon, false, OnClose::Ask) == Intent::Tray,
{
}

/// A word stands for an answer exactly where it is one of those that are known for it;
/// the space around it and the case of its letters do not matter.
pub proof fn law_the_words_for_closing(name: Seq<char>)
    ensures
        on_close_named(name) == Some(OnClose::Ask) <==> text::folded(name) == "ask"@,
        on_close_named(name) == Some(OnClose::Tray) <==> text::folded(name) == "tray"@
            || text::folded(name) == "minimize"@ || text::folded(name) == "hide"@,
        on_close_named(name) == Some(OnClose::Quit) <==> text::folded(name) == "quit"@
            || text::folded(name) == "exit"@,
{
    reveal_strlit("ask");
    reveal_strlit("tray");
    reveal_strlit("minimize");
    reveal_strlit("hide");
    reveal_strlit("quit");
    reveal_strlit("exit");
    assert("tray"@[0] == 't' && "hide"@[0] == 'h' && "quit"@[0] == 'q' && "exit"@[0] == 'e');
    assert("ask"@.len() == 3 && "tray"@.len() == 4 && "minimize"@.len() == 8 && "quit"@.len() == 4
        && "exit"@.len() == 4);
}

/// Rounding goes to the nearest whole number: it is never off by more than a half, and
/// where it is off by a half the number is even.
pub proof fn law_rounding_goes_to_the_nearest(n: nat, d: nat)
    requires
        d > 0,
    ensures
        2 * (nearest(n, d) * d) <= 2 * n + d,
        2 * n <= 2 * (nearest(n, d) * d) + d,
        2 * (nearest(n, d) * d) == 2 * n + d || 2 * n == 2 * (nearest(n, d) * d) + d ==> nearest(n, d)
            % 2 == 0,
{
    let q = n / d;
    let r = n % d;
    vstd::arithmetic::div_mod::lemma_fundamental_div_mod(n as int, d as int);
    assert(n == q * d + r) by (nonlinear_arith)
        requires
            n == d * (n as int / d as int) + n as int % d as int,
            q == n / d,
            r == n % d,
    ;
    assert((q + 1) * d == q * d + d) by (nonlinear_arith);
}

/// How far apart neighbouring doubles are: a power of two that goes with the number,
/// so that there are never more than fifty-three bits.
proof fn lemma_double_step(n: nat)
    ensures
        double_step(n) >= 1,
        n < 0x20_0000_0000_0000 ==> double_step(n) == 1,
        n < 0x20_0000_0000_0000 * double_step(n),
        double_step(n) > 1 ==> 0x10_0000_0000_0000 * double_step(n) <= n,
    decreases n,
{
    if n >= 0x20_0000_0000_0000 {
        lemma_double_step(n / 2);
    }
}

/// A double holds a count of bytes to fifty-three bits: up to there it is exact, and
/// above it is off by no more than half of the step between two doubles.
pub proof fn law_a_double_holds_a_count(n: nat)
    ensures
        n < 0x20_0000_0000_0000 ==> as_double(n) == n,
        0x20_0000_0000_0000 * as_double(n) <= 0x20_0000_0000_0000 * n + n,
        0x20_0000_0000_0000 * n <= 0x20_0000_0000_0000 * as_double(n) + n,
{
    let d = double_step(n);
    lemma_double_step(n);
    law_rounding_goes_to_the_nearest(n, d);
    if d == 1 {
        assert(n % 1 == 0 && n / 1 == n);
        assert(as_double(n) == n);
    }
}

/// A size that is shown in a larger unit is within half a tenth of that unit of what it
/// stands for, and has one decimal.
pub open spec fn shown_in(shown: Seq<char>, bytes: nat, unit: nat, name: Seq<char>) -> bool {
    exists|tenths: nat|
        {
            &&& shown == #[trigger] text::decimal(tenths / 10) + "."@ + text::decimal(tenths % 10)
                + " "@ + name
            &&& 2 * (tenths * unit) <= 20 * bytes + unit
            &&& 20 * bytes <= 2 * (tenths * unit) + unit
        }
}

proof fn lemma_shown_in(bytes: nat, unit: nat)
    requires
        bytes < 0x20_0000_0000_0000,
        1 <= unit <= 4,
        unit_of(bytes) == unit,
    ensures
        shown_in(size_text(bytes), bytes, unit_bytes(unit), unit_name(unit)),
{
    law_a_double_holds_a_count(bytes);
    let d = unit_bytes(unit);
    law_rounding_goes_to_the_nearest(bytes * 10, d);
    let tenths = nearest(bytes * 10, d);
    assert(size_text(bytes) == text::decimal(tenths / 10) + "."@ + text::decimal(tenths % 10) + " "@
        + unit_name(unit));
}

/// A size is told in the unit in which it is at least one and less than 1024: below
/// 1024 in whole bytes, and above to one decimal, rounded to the nearest.
pub proof fn law_a_size_is_told_in_its_unit(bytes: nat)
    ensures
        bytes < 1024 ==> size_text(bytes) == text::decimal(bytes) + " B"@,
        1024 <= bytes < 1024 * 1024 ==> shown_in(size_text(bytes), bytes, 1024, "KB"@),
        1024 * 1024 <= bytes < 1024 * 1024 * 1024 ==> shown_in(
            size_text(bytes),
            bytes,
            1024 * 1024,
            "MB"@,
        ),
        1024 * 1024 * 1024 <= bytes < 1024 * 1024 * 1024 * 1024 ==> shown_in(
            size_text(bytes),
            bytes,
            1024 * 1024 * 1024,
            "GB"@,
        ),
        1024 * 1024 * 1024 * 1024 <= bytes < 0x20_0000_0000_0000 ==> shown_in(
            size_text(bytes),
            bytes,
            1024 * 1024 * 1024 * 1024,
            "TB"@,
        ),
{
    if bytes < 1024 {
        law_a_double_holds_a_count(bytes);
    } else if bytes < 0x20_0000_0000_0000 {
        lemma_shown_in(bytes, unit_of(bytes));
    }
}

/// Where the current file is not among its neighbours, a step forth leads to the first of
/// them and a step back to the last.
pub proof fn law_a_stranger_steps_in_at_an_end(len: nat, wrap: bool, delta: int)
    requires
        len > 0,
    ensures
        delta >= 0 ==> step_to(len, None, wrap, delta) == Some(0nat),
        delta < 0 ==> step_to(len, None, wrap, delta) == Some((len - 1) as nat),
{
}

} // verus!
