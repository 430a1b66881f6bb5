//! What the command line asks for, and what the program says on it.
use vstd::prelude::*;

use crate::app::Outcome;
use crate::config::{Overrides, OverridesView};
use crate::hotkey::Status;
use crate::path::{FilePath, PathView};
use crate::state::Mode;
use crate::style::Theme;
use crate::text::{self, chars_of, copy_text, debug, push_decimal, push_str, string_of};

verus! {

/// The command line.
#[derive(Debug)]
pub struct Args {
    /// What to preview.
    pub path: Option<FilePath>,
    /// `--lines`.
    pub lines: Option<usize>,
    /// `--wrap`.
    pub wrap: bool,
    /// `--theme`.
    pub theme: Option<Theme>,
    /// `--no-tray`.
    pub no_tray: bool,
    /// `--config`.
    pub config: Option<FilePath>,
    /// `--no-config`.
    pub no_config: bool,
    /// `--borderless`.
    pub borderless: bool,
    /// `--timing`.
    pub timing: bool,
    /// `--probe`.
    pub probe: bool,
    /// `--daemon`.
    pub daemon: bool,
    /// `--no-daemon`.
    pub no_daemon: bool,
    /// `--hotkey`.
    pub hotkey: Option<String>,
    /// `--no-hotkey`.
    pub no_hotkey: bool,
    /// `--doctor`.
    pub doctor: bool,
}

/// A flag that is typed says something; one that is not leaves it to the settings
/// file.
pub open spec fn typed(flag: bool, value: bool) -> Option<bool> {
    if flag {
        Some(value)
    } else {
        None
    }
}

/// What was typed, as the settings are merged.
pub fn overrides(args: &Args) -> (r: Overrides)
    ensures
        r@ == (OverridesView {
            hotkey: text::opt_text(args.hotkey),
            no_hotkey: args.no_hotkey,
            tray: typed(args.no_tray, false),
            updates: None,
            lines: args.lines,
            wrap: typed(args.wrap, true),
            theme: args.theme,
        }),
{
    Overrides {
        hotkey: copy_text(&args.hotkey),
        no_hotkey: args.no_hotkey,
        tray: if args.no_tray {
            Some(false)
        } else {
            None
        },
        updates: None,
        lines: args.lines,
        wrap: if args.wrap {
            Some(true)
        } else {
            None
        },
        theme: args.theme,
    }
}

/// What the program is to do.
#[derive(Debug, Clone, Copy, PartialEq, Eq, Structural)]
pub enum Run {
    /// Report what it sees.
    Doctor,
    /// Stay.
    Daemon,
    /// Open a window.
    Once,
}

/// What the program is to do. A report is a report, whatever else was typed.
pub fn run_of(args: &Args) -> (r: Run)
    ensures
        r == (if args.doctor {
            Run::Doctor
        } else if args.daemon {
            Run::Daemon
        } else {
            Run::Once
        }),
{
    if args.doctor {
        Run::Doctor
    } else if args.daemon {
        Run::Daemon
    } else {
        Run::Once
    }
}

/// Whether a running daemon is asked to show the path: there is one to show, and
/// this process is not meant to do it itself.
pub fn hands_off(args: &Args) -> (r: bool)
    ensures
        r == (args.path is Some && !args.no_daemon && !args.probe),
{
    args.path.is_some() && !args.no_daemon && !args.probe
}

/// How a window that is opened once counts: with a path it is a popup, without one
/// the user opened it for itself.
pub fn mode_of(path: Option<&FilePath>) -> (r: Mode)
    ensures
        r == (if path is Some {
            Mode::Popup
        } else {
            Mode::App
        }),
{
    match path {
        Some(_) => Mode::Popup,
        None => Mode::App,
    }
}

/// Whether a window is on screen from the start: a resident one only with a path to
/// show.
pub fn starts_visible(path: Option<&FilePath>, mode: Mode) -> (r: bool)
    ensures
        r == (path is Some || mode != Mode::Daemon),
{
    path.is_some() || mode != Mode::Daemon
}

/// What a process that wants to be resident does next.
#[derive(Debug, Clone, Copy, PartialEq, Eq, Structural)]
pub enum Resident {
    /// It is the one: serve.
    Serve,
    /// Another one is: hand the path over to it.
    HandOver,
    /// Another one is, and there is nothing to hand over.
    Leave,
    /// The other one did not answer: open a window here.
    ShowHere,
}

/// What a process that wants to be resident does once it knows whether it is the
/// only one.
pub fn after_bind(bound: bool, path: Option<&FilePath>) -> (r: Resident)
    ensures
        r == (if bound {
            Resident::Serve
        } else if path is Some {
            Resident::HandOver
        } else {
            Resident::Leave
        }),
{
    if bound {
        Resident::Serve
    } else if path.is_some() {
        Resident::HandOver
    } else {
        Resident::Leave
    }
}

/// What it does once it has tried to hand its path over. A path is never dropped in
/// silence.
pub fn after_handover(delivered: bool) -> (r: Resident)
    ensures
        r == (if delivered {
            Resident::Leave
        } else {
            Resident::ShowHere
        }),
{
    if delivered {
        Resident::Leave
    } else {
        Resident::ShowHere
    }
}

/// The hotkey that is held after asking for `spec`: what was granted, not what was
/// asked for.
pub fn held(spec: String, status: &Status) -> (r: Option<String>)
    ensures
        text::opt_text(r) == (if status.why() is None {
            Some(spec@)
        } else {
            None
        }),
{
    if status.is_registered() {
        Some(spec)
    } else {
        None
    }
}

/// Which of the layers the hotkey came from.
pub fn hotkey_source(args: &Args, from_file: bool) -> (r: &'static str)
    ensures
        r@ == (if args.hotkey is Some {
            "--hotkey"@
        } else if from_file {
            "config file"@
        } else {
            "default"@
        }),
{
    if args.hotkey.is_some() {
        "--hotkey"
    } else if from_file {
        "config file"
    } else {
        "default"
    }
}

// ---------------------------------------------------------------------------
// What is said
// ---------------------------------------------------------------------------
/// What is said of a hotkey that cannot be read.
pub fn invalid_hotkey(spec: &Option<String>, why: &str) -> (r: String)
    ensures
        r@ == "invalid --hotkey "@ + (match *spec {
            Some(s) => "Some("@ + text::debug_text(s@) + ")"@,
            None => "None"@,
        }) + ": "@ + why@,
{
    let mut out = chars_of("invalid --hotkey ");
    match spec {
        Some(spec) => {
            push_str(&mut out, "Some(");
            let quoted = debug(spec.as_str());
            push_str(&mut out, quoted.as_str());
            push_str(&mut out, ")");
        },
        None => {
            push_str(&mut out, "None");
        },
    }
    push_str(&mut out, ": ");
    push_str(&mut out, why);
    assert(out@ =~= "invalid --hotkey "@ + (match *spec {
        Some(s) => "Some("@ + text::debug_text(s@) + ")"@,
        None => "None"@,
    }) + ": "@ + why@);
    string_of(out.as_slice())
}

/// What is said of a path that cannot be opened.
pub fn cannot_open(path: &FilePath) -> (r: String)
    ensures
        r@ == "cannot open "@ + text::lossy_text(path@.bytes),
{
    let mut out = chars_of("cannot open ");
    let shown = path.display();
    push_str(&mut out, shown.as_str());
    string_of(out.as_slice())
}

/// What became of a preview, in a word.
pub open spec fn outcome_text(outcome: Outcome) -> Seq<char> {
    match outcome {
        Outcome::Ready(_) => "ok"@,
        Outcome::Failed(message) => "error: "@ + message@,
        Outcome::Cancelled => "cancelled"@,
    }
}

/// What became of a preview, in a word.
pub fn outcome_label(outcome: &Outcome) -> (r: String)
    ensures
        r@ == outcome_text(*outcome),
{
    match outcome {
        Outcome::Ready(_) => "ok".to_owned(),
        Outcome::Failed(message) => {
            let mut out = chars_of("error: ");
            push_str(&mut out, message.as_str());
            string_of(out.as_slice())
        },
        Outcome::Cancelled => "cancelled".to_owned(),
    }
}

/// What is said of the first preview, or of the home screen: `millis` is the time
/// it took, as it is written.
pub fn first_line(has_path: bool, millis: &str, outcome: &str) -> (r: String)
    ensures
        r@ == (if has_path {
            "first preview available after "@ + millis@ + " ms ("@ + outcome@ + ")"@
        } else {
            "home screen ready after "@ + millis@ + " ms (no path given)"@
        }),
{
    if has_path {
        let mut out = chars_of("first preview available after ");
        push_str(&mut out, millis);
        push_str(&mut out, " ms (");
        push_str(&mut out, outcome);
        push_str(&mut out, ")");
        string_of(out.as_slice())
    } else {
        let mut out = chars_of("home screen ready after ");
        push_str(&mut out, millis);
        push_str(&mut out, " ms (no path given)");
        string_of(out.as_slice())
    }
}

/// What is said of a path that was handed over.
pub fn received_line(path: &FilePath, outcome: &str, millis: &str) -> (r: String)
    ensures
        r@ == "received "@ + text::lossy_text(path@.bytes) + " ("@ + outcome@ + ", "@ + millis@ + " ms)"@,
{
    let mut out = chars_of("received ");
    let shown = path.display();
    push_str(&mut out, shown.as_str());
    push_str(&mut out, " (");
    push_str(&mut out, outcome);
    push_str(&mut out, ", ");
    push_str(&mut out, millis);
    push_str(&mut out, " ms)");
    string_of(out.as_slice())
}

/// What is said of the recent files: how many, how many are left, and where the
/// list is kept.
pub open spec fn recent_text(file: Option<PathView>, remembered: nat, left: nat) -> Seq<char> {
    match file {
        None => "not stored (no state directory in this environment)"@,
        Some(file) => text::decimal(remembered) + " remembered, "@ + text::decimal(left) + " still on disk ("@
            + text::lossy_text(file.bytes) + ")"@,
    }
}

/// What is said of the recent files.
pub fn recent_label(file: Option<&FilePath>, remembered: usize, left: usize) -> (r: String)
    ensures
        r@ == recent_text(
            match file {
                Some(f) => Some(f@),
                None => None,
            },
            remembered as nat,
            left as nat,
        ),
{
    match file {
        None => "not stored (no state directory in this environment)".to_owned(),
        Some(file) => {
            let mut out: Vec<char> = Vec::new();
            push_decimal(&mut out, remembered as u64);
            push_str(&mut out, " remembered, ");
            push_decimal(&mut out, left as u64);
            push_str(&mut out, " still on disk (");
            let shown = file.display();
            push_str(&mut out, shown.as_str());
            push_str(&mut out, ")");
            assert(out@ =~= recent_text(Some(file@), remembered as nat, left as nat));
            string_of(out.as_slice())
        },
    }
}

// ---------------------------------------------------------------------------
// Laws
// ---------------------------------------------------------------------------
/// A flag that was not typed never beats the settings file.
pub proof fn law_what_is_not_typed_is_not_said(flag: bool, value: bool)
    ensures
        typed(flag, value) is Some <==> flag,
        flag ==> typed(flag, value) == Some(value),
{
}

} // verus!
