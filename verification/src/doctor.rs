//! The report on what the program can see: everything that decides whether a press
//! of the hotkey shows a file.
//!
//! Each section is a list of lines, made from what was found out elsewhere. What
//! says "no" is followed by what to try next.
use vstd::prelude::*;

use crate::config::{Location, Platform, Settings};
use crate::console::{self, Attached};
use crate::dialog::{self, evidence, Availability, Probe, NO_DIALOG};
use crate::hotkey::{self, DisplayServer, HotKey, Status, DEFAULT_SPEC};
use crate::path::{FilePath, PathView};
use crate::selection::Origin;
use crate::text::{self, chars_of, push_decimal, push_str, string_of};

verus! {

// ---------------------------------------------------------------------------
// Lines
// ---------------------------------------------------------------------------
/// `s`, with blanks behind it up to the width of the label column.
pub open spec fn label_column(s: Seq<char>) -> Seq<char> {
    s + crate::app::labels::blanks(12 - s.len())
}

/// A row: a label and what belongs to it.
pub open spec fn row_text(label: Seq<char>, value: Seq<char>) -> Seq<char> {
    "  "@ + label_column(label) + value
}

/// What to try next.
pub open spec fn hint_text(line: Seq<char>) -> Seq<char> {
    "              → "@ + line
}

/// What to try next, continued.
pub open spec fn more_text(line: Seq<char>) -> Seq<char> {
    "                "@ + line
}

fn say(out: &mut Vec<String>, line: &str)
    ensures
        text::texts(final(out)@) == text::texts(old(out)@).push(line@),
{
    out.push(line.to_owned());
    assert(text::texts(out@) =~= text::texts(old(out)@).push(line@));
}

fn row(out: &mut Vec<String>, label: &str, value: &str)
    ensures
        text::texts(final(out)@) == text::texts(old(out)@).push(row_text(label@, value@)),
{
    let mut line = chars_of("  ");
    let ghost head = line@;
    push_str(&mut line, label);
    let mut n: usize = chars_of(label).len();
    let len: usize = n;
    while n < 12
        invariant
            label@.len() == len,
            len <= n,
            n <= 12 || n == len,
            line@ == head + label@ + crate::app::labels::blanks(n - len),
        decreases 12 - n,
    {
        line.push(' ');
        assert(line@ =~= head + label@ + crate::app::labels::blanks(n + 1 - len));
        n = n + 1;
    }
    push_str(&mut line, value);
    assert(line@ =~= row_text(label@, value@)) by {
        assert(crate::app::labels::blanks(n - len) =~= crate::app::labels::blanks(12 - len));
    }
    out.push(string_of(line.as_slice()));
    assert(text::texts(out@) =~= text::texts(old(out)@).push(row_text(label@, value@)));
}

fn hint(out: &mut Vec<String>, line: &str)
    ensures
        text::texts(final(out)@) == text::texts(old(out)@).push(hint_text(line@)),
{
    let mut s = chars_of("              → ");
    push_str(&mut s, line);
    out.push(string_of(s.as_slice()));
    assert(text::texts(out@) =~= text::texts(old(out)@).push(hint_text(line@)));
}

fn more(out: &mut Vec<String>, line: &str)
    ensures
        text::texts(final(out)@) == text::texts(old(out)@).push(more_text(line@)),
{
    let mut s = chars_of("                ");
    push_str(&mut s, line);
    out.push(string_of(s.as_slice()));
    assert(text::texts(out@) =~= text::texts(old(out)@).push(more_text(line@)));
}

fn joined(a: &str, b: &str, c: &str) -> (r: String)
    ensures
        r@ == a@ + b@ + c@,
{
    let mut s = chars_of(a);
    push_str(&mut s, b);
    push_str(&mut s, c);
    string_of(s.as_slice())
}

// ---------------------------------------------------------------------------
// Sections
// ---------------------------------------------------------------------------
/// Where the report goes. There is nothing to say where it cannot go wrong.
pub open spec fn console_section(platform: Platform, output: Attached) -> Seq<Seq<char>> {
    if platform == Platform::Unix {
        Seq::empty()
    } else {
        seq!["console"@, row_text("output"@, console::description(output))] + (if output
            != Attached::Parent {
            seq![
                hint_text("nothing is reading this. Run `sekio-gui --doctor` from"@),
                more_text("PowerShell, cmd or Windows Terminal — started from there, the"@),
                more_text("app reattaches to that window and prints into it."@),
            ]
        } else {
            Seq::empty()
        }) + seq![""@]
    }
}

/// Where the report goes.
pub fn console(platform: Platform, output: Attached) -> (r: Vec<String>)
    ensures
        text::texts(r@) == console_section(platform, output),
{
    let mut out: Vec<String> = Vec::new();
    match platform {
        Platform::Unix => {},
        Platform::Windows => {
            say(&mut out, "console");
            row(&mut out, "output", crate::console::describe(output));
            if output != Attached::Parent {
                hint(&mut out, "nothing is reading this. Run `sekio-gui --doctor` from");
                more(&mut out, "PowerShell, cmd or Windows Terminal — started from there, the");
                more(&mut out, "app reattaches to that window and prints into it.");
            }
            say(&mut out, "");
        },
    }
    assert(text::texts(out@) =~= console_section(platform, output));
    out
}

/// What is selected, by its path, where it came from, and whether it can be shown.
pub type Selected = Option<(PathView, Origin, bool)>;

/// What a press of the hotkey would find now. `millis` is how long that took.
pub open spec fn selection_section(
    strategy: Seq<char>,
    selected: Selected,
    millis: nat,
) -> Seq<Seq<char>> {
    seq!["selection"@, row_text("strategy"@, strategy)] + (match selected {
        Some((path, origin, usable)) => seq![
            row_text(
                "selected"@,
                text::lossy_text(path.bytes) + " ("@ + (match origin {
                    Origin::FileManager => "from the file manager"@,
                    Origin::Clipboard => "from the clipboard"@,
                }) + ", "@ + text::decimal(millis) + " ms)"@,
            ),
        ] + (if usable {
            Seq::empty()
        } else {
            seq![
                row_text("usable"@, "no — not an existing absolute path"@),
                hint_text("a press would find nothing to preview: sekio only opens"@),
                more_text("paths that exist. Select the file in a file manager rather"@),
                more_text("than copying its name."@),
            ]
        }),
        None => seq![
            row_text("selected"@, "nothing ("@ + text::decimal(millis) + " ms)"@),
            hint_text("select exactly one file in your file manager and run this"@),
            more_text("again; an absolute path in the clipboard also works."@),
            more_text("A press that resolves nothing does nothing at all: no window,"@),
            more_text("no error — which is what \"the hotkey did nothing\" looks like."@),
        ],
    })
}

/// What a press of the hotkey would find now.
pub fn selection(
    strategy: &str,
    selected: Option<(&FilePath, Origin, bool)>,
    millis: u64,
) -> (r: Vec<String>)
    ensures
        text::texts(r@) == selection_section(
            strategy@,
            match selected {
                Some((path, origin, usable)) => Some((path@, origin, usable)),
                None => None,
            },
            millis as nat,
        ),
{
    let ghost what = match selected {
        Some((path, origin, usable)) => Some((path@, origin, usable)),
        None => None,
    };
    let mut out: Vec<String> = Vec::new();
    say(&mut out, "selection");
    row(&mut out, "strategy", strategy);
    match selected {
        Some((path, origin, usable)) => {
            let shown = path.display();
            let mut value = chars_of(shown.as_str());
            push_str(&mut value, " (");
            push_str(
                &mut value,
                match origin {
                    Origin::FileManager => "from the file manager",
                    Origin::Clipboard => "from the clipboard",
                },
            );
            push_str(&mut value, ", ");
            push_decimal(&mut value, millis);
            push_str(&mut value, " ms)");
            let value = string_of(value.as_slice());
            row(&mut out, "selected", value.as_str());
            if !usable {
                row(&mut out, "usable", "no — not an existing absolute path");
                hint(&mut out, "a press would find nothing to preview: sekio only opens");
                more(&mut out, "paths that exist. Select the file in a file manager rather");
                more(&mut out, "than copying its name.");
            }
        },
        None => {
            let mut value = chars_of("nothing (");
            push_decimal(&mut value, millis);
            push_str(&mut value, " ms)");
            let value = string_of(value.as_slice());
            row(&mut out, "selected", value.as_str());
            hint(&mut out, "select exactly one file in your file manager and run this");
            more(&mut out, "again; an absolute path in the clipboard also works.");
            more(&mut out, "A press that resolves nothing does nothing at all: no window,");
            more(&mut out, "no error — which is what \"the hotkey did nothing\" looks like.");
        },
    }
    assert(text::texts(out@) =~= selection_section(strategy@, what, millis as nat));
    out
}

/// What to try where the hotkey was not granted. That there is no display explains
/// it alone; where a daemon runs, it probably holds the key.
pub open spec fn refused_hints(display: DisplayServer, running: bool) -> Seq<Seq<char>> {
    (if display is Missing {
        seq![
            hint_text("global hotkeys are grabbed through X11 (XWayland counts)."@),
            more_text("On a Wayland-only or headless session, bind a shortcut in"@),
            more_text("your desktop settings to `sekio-gui <path>` instead."@),
        ]
    } else if running {
        seq![
            hint_text("a daemon is already running and is probably holding this"@),
            more_text("key itself, which is exactly what should happen. Press it"@),
            more_text("and see; if nothing appears, check the selection above."@),
        ]
    } else {
        seq![
            hint_text("another application probably owns this combination; try"@),
            more_text("another one, e.g. --hotkey \"Super+P\"."@),
        ]
    }) + seq![
        hint_text("either way the daemon still runs and still serves its socket,"@),
        more_text("so `sekio-gui <path>` and the file-manager popup keep working."@),
    ]
}

/// Whether the hotkey can be read, and whether this session hands it over.
pub open spec fn hotkey_section(
    source: Seq<char>,
    spec: Seq<char>,
    key: HotKey,
    display: DisplayServer,
    refused: Option<Seq<char>>,
    running: bool,
) -> Seq<Seq<char>> {
    seq![
        "hotkey"@,
        row_text("spec"@, spec + " ("@ + source + ")"@),
        row_text("parsed"@, hotkey::described(key)),
    ] + (match hotkey::risk(key) {
        Some(warning) => seq![row_text("careful"@, warning)],
        None => Seq::empty(),
    }) + seq![row_text("display"@, display.what())] + (match refused {
        None => seq![row_text("registered"@, "yes — this session hands the key over"@)],
        Some(reason) => seq![row_text("registered"@, "no — "@ + reason)] + refused_hints(
            display,
            running,
        ),
    })
}

fn refused_lines(out: &mut Vec<String>, display: &DisplayServer, running: bool)
    ensures
        text::texts(final(out)@) == text::texts(old(out)@) + refused_hints(*display, running),
{
    let missing = match display {
        DisplayServer::Missing(_) => true,
        DisplayServer::Present(_) => false,
    };
    if missing {
        hint(out, "global hotkeys are grabbed through X11 (XWayland counts).");
        more(out, "On a Wayland-only or headless session, bind a shortcut in");
        more(out, "your desktop settings to `sekio-gui <path>` instead.");
    } else if running {
        hint(out, "a daemon is already running and is probably holding this");
        more(out, "key itself, which is exactly what should happen. Press it");
        more(out, "and see; if nothing appears, check the selection above.");
    } else {
        hint(out, "another application probably owns this combination; try");
        more(out, "another one, e.g. --hotkey \"Super+P\".");
    }
    hint(out, "either way the daemon still runs and still serves its socket,");
    more(out, "so `sekio-gui <path>` and the file-manager popup keep working.");
    assert(text::texts(out@) =~= text::texts(old(out)@) + refused_hints(*display, running));
}

/// Whether the hotkey can be read, and whether this session hands it over.
pub fn hotkey(
    source: &str,
    spec: &str,
    key: &HotKey,
    display: &DisplayServer,
    status: &Status,
    running: bool,
) -> (r: Vec<String>)
    ensures
        text::texts(r@) == hotkey_section(
            source@,
            spec@,
            *key,
            *display,
            status.why(),
            running,
        ),
{
    let mut out: Vec<String> = Vec::new();
    say(&mut out, "hotkey");
    let shown = joined(spec, " (", source);
    let shown = joined(shown.as_str(), ")", "");
    proof {
        reveal_strlit("");
    }
    assert(shown@ =~= spec@ + " ("@ + source@ + ")"@);
    row(&mut out, "spec", shown.as_str());
    let name = crate::hotkey::describe(key);
    row(&mut out, "parsed", name.as_str());
    let careful = crate::hotkey::risky(key);
    match &careful {
        Some(warning) => {
            row(&mut out, "careful", warning.as_str());
        },
        None => {},
    }
    row(&mut out, "display", display.label());
    match status {
        Status::Registered { .. } => {
            row(&mut out, "registered", "yes — this session hands the key over");
        },
        Status::Unavailable { reason, .. } => {
            let value = joined("no — ", reason.as_str(), "");
            assert(value@ =~= "no — "@ + reason@);
            row(&mut out, "registered", value.as_str());
            refused_lines(&mut out, display, running);
        },
    }
    assert(text::texts(out@) =~= hotkey_section(
        source@,
        spec@,
        *key,
        *display,
        status.why(),
        running,
    ));
    out
}

/// No hotkey was asked for.
pub fn no_hotkey() -> (r: Vec<String>)
    ensures
        text::texts(r@) == seq![
            "hotkey"@,
            row_text("hotkey"@, "none (--no-hotkey)"@),
            hint_text("drop --no-hotkey to have the daemon answer "@ + DEFAULT_SPEC@),
        ],
{
    let mut out: Vec<String> = Vec::new();
    say(&mut out, "hotkey");
    row(&mut out, "hotkey", "none (--no-hotkey)");
    proof {
        reveal_strlit("");
    }
    let line = joined("drop --no-hotkey to have the daemon answer ", DEFAULT_SPEC, "");
    assert(line@ =~= "drop --no-hotkey to have the daemon answer "@ + DEFAULT_SPEC@);
    hint(&mut out, line.as_str());
    assert(text::texts(out@) =~= seq![
        "hotkey"@,
        row_text("hotkey"@, "none (--no-hotkey)"@),
        hint_text("drop --no-hotkey to have the daemon answer "@ + DEFAULT_SPEC@),
    ]);
    out
}

/// Whether there is a dialog to open a file with, and what was looked at.
pub open spec fn dialog_section(probe: Probe, recent: Seq<char>) -> Seq<Seq<char>> {
    seq![
        "open dialog"@,
        row_text(
            "native"@,
            if dialog::has_dialog(probe) {
                "yes — a native file dialog can be shown"@
            } else {
                NO_DIALOG@
            },
        ),
        row_text("portal"@, portal_text(probe)),
        row_text("zenity"@, zenity_text(probe)),
    ] + (if dialog::has_dialog(probe) {
        Seq::empty()
    } else {
        seq![
            hint_text("Ctrl+O still works: it opens the built-in browser pane instead,"@),
            more_text("which needs no portal, no GTK and no external process. Install a"@),
            more_text("desktop portal (xdg-desktop-portal-gtk/-kde) for the native one."@),
        ]
    }) + seq![row_text("recent"@, recent)]
}

/// What was found of the portal.
pub open spec fn portal_text(probe: Probe) -> Seq<char> {
    if probe.built_in {
        "not needed on this platform"@
    } else if probe.session_bus {
        "a DBus session bus is reachable"@
    } else {
        "no DBus session bus"@
    }
}

/// What was found of `zenity`.
pub open spec fn zenity_text(probe: Probe) -> Seq<char> {
    if probe.zenity {
        "on PATH (rfd's fallback)"@
    } else {
        "not on PATH"@
    }
}

/// Whether there is a dialog to open a file with, and what was looked at.
pub fn dialog(probe: Probe, recent: &str) -> (r: Vec<String>)
    ensures
        text::texts(r@) == dialog_section(probe, recent@),
{
    let mut out: Vec<String> = Vec::new();
    say(&mut out, "open dialog");
    let availability = crate::dialog::availability_from(probe);
    row(&mut out, "native", crate::dialog::describe(availability));
    let found = evidence(probe);
    row(&mut out, found[0].0, found[0].1);
    row(&mut out, found[1].0, found[1].1);
    match availability {
        Availability::Native => {},
        Availability::Unavailable(_) => {
            hint(&mut out, "Ctrl+O still works: it opens the built-in browser pane instead,");
            more(&mut out, "which needs no portal, no GTK and no external process. Install a");
            more(&mut out, "desktop portal (xdg-desktop-portal-gtk/-kde) for the native one.");
        },
    }
    row(&mut out, "recent", recent);
    assert(text::texts(out@) =~= dialog_section(probe, recent@));
    out
}

/// Whether a daemon answers.
pub open spec fn daemon_section(socket: PathView, running: bool) -> Seq<Seq<char>> {
    seq!["daemon"@, row_text("socket"@, text::lossy_text(socket.bytes))] + (if running {
        seq![row_text("running"@, "yes — it answers on that socket"@)]
    } else {
        seq![
            row_text("running"@, "no"@),
            hint_text("start one with `sekio-gui --daemon &`. Without it there is"@),
            more_text("nothing resident for a hotkey to summon, and every popup pays"@),
            more_text("for a fresh process."@),
        ]
    })
}

/// Whether a daemon answers.
pub fn daemon(socket: &FilePath, running: bool) -> (r: Vec<String>)
    ensures
        text::texts(r@) == daemon_section(socket@, running),
{
    let mut out: Vec<String> = Vec::new();
    say(&mut out, "daemon");
    let shown = socket.display();
    row(&mut out, "socket", shown.as_str());
    if running {
        row(&mut out, "running", "yes — it answers on that socket");
    } else {
        row(&mut out, "running", "no");
        hint(&mut out, "start one with `sekio-gui --daemon &`. Without it there is");
        more(&mut out, "nothing resident for a hotkey to summon, and every popup pays");
        more(&mut out, "for a fresh process.");
    }
    assert(text::texts(out@) =~= daemon_section(socket@, running));
    out
}

/// Whether a daemon would have an icon. `host` is what would show it.
pub open spec fn tray_section(wanted: bool, host: Option<Seq<char>>) -> Seq<Seq<char>> {
    seq!["tray"@] + (if !wanted {
        seq![row_text("icon"@, "off (tray = false / --no-tray)"@)]
    } else {
        match host {
            Some(host) => seq![row_text("icon"@, "yes — "@ + host)],
            None => seq![
                row_text("icon"@, "no — nothing in this session hosts one"@),
                hint_text("the daemon runs, serves its socket and answers its hotkey"@),
                more_text("regardless; it just has nowhere to put an icon. On GNOME,"@),
                more_text("install the AppIndicator and KStatusNotifierItem extension."@),
            ],
        }
    })
}

/// Whether a daemon would have an icon.
pub fn tray(wanted: bool, host: Option<&str>) -> (r: Vec<String>)
    ensures
        text::texts(r@) == tray_section(
            wanted,
            match host {
                Some(h) => Some(h@),
                None => None,
            },
        ),
{
    let ghost by = match host {
        Some(h) => Some(h@),
        None => None,
    };
    let mut out: Vec<String> = Vec::new();
    say(&mut out, "tray");
    if !wanted {
        row(&mut out, "icon", "off (tray = false / --no-tray)");
    } else {
        match host {
            Some(host) => {
                proof {
                    reveal_strlit("");
                }
                let value = joined("yes — ", host, "");
                assert(value@ =~= "yes — "@ + host@);
                row(&mut out, "icon", value.as_str());
            },
            None => {
                row(&mut out, "icon", "no — nothing in this session hosts one");
                hint(&mut out, "the daemon runs, serves its socket and answers its hotkey");
                more(&mut out, "regardless; it just has nowhere to put an icon. On GNOME,");
                more(&mut out, "install the AppIndicator and KStatusNotifierItem extension.");
            },
        }
    }
    assert(text::texts(out@) =~= tray_section(wanted, by));
    out
}

/// Which settings file is read. `present` is whether the usual one is there.
pub open spec fn file_section(location: Location, present: bool) -> Seq<Seq<char>> {
    match location {
        Location::Disabled => seq![row_text("file"@, "ignored (--no-config)"@)],
        Location::Explicit(path) => seq![
            row_text("file"@, text::lossy_text(path@.bytes) + " (--config)"@),
        ],
        Location::Default(Some(path)) => seq![
            row_text(
                "file"@,
                text::lossy_text(path@.bytes) + " ("@ + (if present {
                    "read"@
                } else {
                    "not present"@
                }) + ")"@,
            ),
        ],
        Location::Default(None) => seq![
            row_text("file"@, "none — no config directory in this environment"@),
            hint_text("a hotkey chosen from the tray cannot be remembered here."@),
        ],
    }
}

/// Yes or no, as a setting writes it.
pub open spec fn flag_text(b: bool) -> Seq<char> {
    if b {
        "true"@
    } else {
        "false"@
    }
}

/// Which settings file is read, and what came of the layers.
pub fn config(location: &Location, present: bool, settings: &Settings) -> (r: Vec<String>)
    ensures
        text::texts(r@) == seq!["config"@] + file_section(*location, present) + seq![
            row_text("theme"@, settings@.theme.name()),
            row_text("lines"@, text::decimal(settings@.lines as nat)),
            row_text("wrap"@, flag_text(settings@.wrap)),
        ],
{
    let mut out: Vec<String> = Vec::new();
    say(&mut out, "config");
    match location {
        Location::Disabled => {
            row(&mut out, "file", "ignored (--no-config)");
        },
        Location::Explicit(path) => {
            let shown = path.display();
            proof {
                reveal_strlit("");
            }
            let value = joined(shown.as_str(), " (--config)", "");
            assert(value@ =~= text::lossy_text(path@.bytes) + " (--config)"@);
            row(&mut out, "file", value.as_str());
        },
        Location::Default(Some(path)) => {
            let shown = path.display();
            let value = joined(
                shown.as_str(),
                " (",
                if present {
                    "read"
                } else {
                    "not present"
                },
            );
            proof {
                reveal_strlit("");
            }
            let value = joined(value.as_str(), ")", "");
            assert(value@ =~= text::lossy_text(path@.bytes) + " ("@ + (if present {
                "read"@
            } else {
                "not present"@
            }) + ")"@);
            row(&mut out, "file", value.as_str());
        },
        Location::Default(None) => {
            row(&mut out, "file", "none — no config directory in this environment");
            hint(&mut out, "a hotkey chosen from the tray cannot be remembered here.");
        },
    }
    assert(text::texts(out@) =~= seq!["config"@] + file_section(*location, present));
    row(&mut out, "theme", settings.theme.as_str());
    let mut n: Vec<char> = Vec::new();
    push_decimal(&mut n, settings.lines as u64);
    assert(n@ =~= text::decimal(settings@.lines as nat));
    let n = string_of(n.as_slice());
    row(&mut out, "lines", n.as_str());
    row(
        &mut out,
        "wrap",
        if settings.wrap {
            "true"
        } else {
            "false"
        },
    );
    assert(text::texts(out@) =~= seq!["config"@] + file_section(*location, present) + seq![
        row_text("theme"@, settings@.theme.name()),
        row_text("lines"@, text::decimal(settings@.lines as nat)),
        row_text("wrap"@, flag_text(settings@.wrap)),
    ]);
    out
}

// ---------------------------------------------------------------------------
// Laws
// ---------------------------------------------------------------------------
/// What belongs to a label stands in one column, whatever the label is.
pub proof fn law_values_stand_below_each_other(label: Seq<char>, value: Seq<char>)
    requires
        label.len() <= 12,
    ensures
        row_text(label, value).len() == 14 + value.len(),
        row_text(label, value).skip(14) == value,
        row_text(label, value).subrange(2, 2 + label.len() as int) == label,
        forall|i: int|
            0 <= i < 2 || 2 + label.len() <= i < 14 ==> #[trigger] row_text(label, value)[i] == ' ',
{
    reveal_strlit("  ");
    let r = row_text(label, value);
    assert(r.skip(14) =~= value);
    assert(r.subrange(2, 2 + label.len() as int) =~= label);
}

/// Whether a line says what to try next.
pub open spec fn advises(line: Seq<char>) -> bool {
    &&& line.len() > 14
    &&& line[14] == '→'
    &&& forall|i: int| 0 <= i < 14 ==> #[trigger] line[i] == ' '
}

/// Whether a section says what to try next.
pub open spec fn advised(section: Seq<Seq<char>>) -> bool {
    exists|i: int| 0 <= i < section.len() && advises(#[trigger] section[i])
}

proof fn lemma_hint(line: Seq<char>)
    ensures
        advises(hint_text(line)),
        !advises(more_text(line)),
{
    reveal_strlit("              → ");
    reveal_strlit("                ");
    let h = hint_text(line);
    assert forall|i: int| 0 <= i < 14 implies #[trigger] h[i] == ' ' by {
        assert(h[i] == "              → "@[i]);
    }
    assert(h[14] == '→');
    assert(more_text(line)[14] == "                "@[14]);
}

proof fn lemma_row(label: Seq<char>, value: Seq<char>)
    requires
        label.len() > 0,
        label[0] != ' ',
    ensures
        !advises(row_text(label, value)),
{
    reveal_strlit("  ");
    assert(row_text(label, value)[2] == label[0]);
}

proof fn lemma_advised_more(a: Seq<Seq<char>>, b: Seq<Seq<char>>)
    ensures
        advised(a + b) <==> advised(a) || advised(b),
{
    let all = a + b;
    if advised(a) {
        let i = choose|i: int| 0 <= i < a.len() && advises(#[trigger] a[i]);
        assert(all[i] == a[i]);
    }
    if advised(b) {
        let i = choose|i: int| 0 <= i < b.len() && advises(#[trigger] b[i]);
        assert(all[a.len() + i] == b[i]);
    }
    if advised(all) {
        let i = choose|i: int| 0 <= i < all.len() && advises(#[trigger] all[i]);
        if i < a.len() {
            assert(a[i] == all[i]);
        } else {
            assert(b[i - a.len()] == all[i]);
        }
    }
}

/// What says no is followed by what to try next, and nothing else is: where nobody reads
/// the report, no daemon answers, or nothing would show an icon that is wanted.
pub proof fn law_a_no_is_followed_by_advice(
    output: Attached,
    socket: PathView,
    running: bool,
    wanted: bool,
    host: Option<Seq<char>>,
)
    ensures
        console_section(Platform::Unix, output).len() == 0,
        advised(console_section(Platform::Windows, output)) <==> output != Attached::Parent,
        advised(daemon_section(socket, running)) <==> !running,
        advised(tray_section(wanted, host)) <==> wanted && host is None,
{
    reveal_strlit("console");
    reveal_strlit("output");
    reveal_strlit("");
    reveal_strlit("daemon");
    reveal_strlit("socket");
    reveal_strlit("running");
    reveal_strlit("tray");
    reveal_strlit("icon");
    let c = console_section(Platform::Windows, output);
    lemma_row("output"@, console::description(output));
    assert("console"@[0] == 'c');
    if output != Attached::Parent {
        lemma_hint("nothing is reading this. Run `sekio-gui --doctor` from"@);
        assert(advises(c[2]));
    } else {
        assert(c =~= seq!["console"@, row_text("output"@, console::description(output)), ""@]);
    }
    let d = daemon_section(socket, running);
    lemma_row("socket"@, text::lossy_text(socket.bytes));
    lemma_row("running"@, "yes — it answers on that socket"@);
    assert("daemon"@[0] == 'd');
    if running {
        assert(d =~= seq![
            "daemon"@,
            row_text("socket"@, text::lossy_text(socket.bytes)),
            row_text("running"@, "yes — it answers on that socket"@),
        ]);
    } else {
        lemma_hint("start one with `sekio-gui --daemon &`. Without it there is"@);
        assert(advises(d[3]));
    }
    let t = tray_section(wanted, host);
    assert("tray"@[0] == 't');
    if !wanted {
        lemma_row("icon"@, "off (tray = false / --no-tray)"@);
        assert(t =~= seq!["tray"@, row_text("icon"@, "off (tray = false / --no-tray)"@)]);
    } else if host is Some {
        lemma_row("icon"@, "yes — "@ + host->0);
        assert(t =~= seq!["tray"@, row_text("icon"@, "yes — "@ + host->0)]);
    } else {
        lemma_hint("the daemon runs, serves its socket and answers its hotkey"@);
        assert(advises(t[2]));
    }
}

/// Where nothing is selected, or what is cannot be shown, the report says what to try
/// next; where something can be shown it says where that came from, and no more.
pub proof fn law_a_selection_is_reported(
    strategy: Seq<char>,
    path: PathView,
    origin: Origin,
    usable: bool,
    millis: nat,
)
    ensures
        advised(selection_section(strategy, None, millis)),
        advised(selection_section(strategy, Some((path, origin, usable)), millis)) <==> !usable,
        selection_section(strategy, Some((path, Origin::Clipboard, usable)), millis)[2] == row_text(
            "selected"@,
            text::lossy_text(path.bytes) + " ("@ + "from the clipboard"@ + ", "@ + text::decimal(millis)
                + " ms)"@,
        ),
        selection_section(strategy, Some((path, Origin::FileManager, usable)), millis)[2]
            == row_text(
            "selected"@,
            text::lossy_text(path.bytes) + " ("@ + "from the file manager"@ + ", "@ + text::decimal(
                millis,
            ) + " ms)"@,
        ),
{
    reveal_strlit("selection");
    reveal_strlit("strategy");
    reveal_strlit("selected");
    reveal_strlit("usable");
    assert("selection"@[0] == 's');
    lemma_row("strategy"@, strategy);
    let n = selection_section(strategy, None, millis);
    lemma_hint("select exactly one file in your file manager and run this"@);
    assert(advises(n[3]));
    let s = selection_section(strategy, Some((path, origin, usable)), millis);
    let value = text::lossy_text(path.bytes) + " ("@ + (match origin {
        Origin::FileManager => "from the file manager"@,
        Origin::Clipboard => "from the clipboard"@,
    }) + ", "@ + text::decimal(millis) + " ms)"@;
    lemma_row("selected"@, value);
    if usable {
        assert(s =~= seq![
            "selection"@,
            row_text("strategy"@, strategy),
            row_text("selected"@, value),
        ]);
    } else {
        lemma_hint("a press would find nothing to preview: sekio only opens"@);
        assert(advises(s[4]));
    }
}

/// Of a hotkey that was granted the report says so and advises nothing; of one that was
/// not it says why, and what to try: what a missing display explains is not put down to
/// another program, nor what a running daemon explains.
pub proof fn law_a_refused_hotkey_is_explained(
    source: Seq<char>,
    spec: Seq<char>,
    key: HotKey,
    display: DisplayServer,
    reason: Seq<char>,
    running: bool,
)
    requires
        key.key.wf(),
    ensures
        !advised(hotkey_section(source, spec, key, display, None, running)),
        advised(hotkey_section(source, spec, key, display, Some(reason), running)),
        display is Missing ==> refused_hints(display, running)[0] == hint_text(
            "global hotkeys are grabbed through X11 (XWayland counts)."@,
        ),
        display is Present && running ==> refused_hints(display, running)[0] == hint_text(
            "a daemon is already running and is probably holding this"@,
        ),
        display is Present && !running ==> refused_hints(display, running)[0] == hint_text(
            "another application probably owns this combination; try"@,
        ),
        hotkey_section(source, spec, key, display, Some(reason), running).contains(
            row_text("registered"@, "no — "@ + reason),
        ),
{
    reveal_strlit("hotkey");
    reveal_strlit("spec");
    reveal_strlit("parsed");
    reveal_strlit("careful");
    reveal_strlit("display");
    reveal_strlit("registered");
    assert("hotkey"@[0] == 'h');
    let shown = spec + " ("@ + source + ")"@;
    let top = seq![
        "hotkey"@,
        row_text("spec"@, shown),
        row_text("parsed"@, hotkey::described(key)),
    ];
    lemma_row("spec"@, shown);
    lemma_row("parsed"@, hotkey::described(key));
    let care = match hotkey::risk(key) {
        Some(warning) => seq![row_text("careful"@, warning)],
        None => Seq::<Seq<char>>::empty(),
    };
    if hotkey::risk(key) is Some {
        lemma_row("careful"@, hotkey::risk(key)->0);
    }
    let on = seq![row_text("display"@, display.what())];
    lemma_row("display"@, display.what());
    let yes = seq![row_text("registered"@, "yes — this session hands the key over"@)];
    lemma_row("registered"@, "yes — this session hands the key over"@);
    assert(!advised(top));
    assert(!advised(care));
    assert(!advised(on));
    assert(!advised(yes));
    lemma_advised_more(top, care);
    lemma_advised_more(top + care, on);
    lemma_advised_more(top + care + on, yes);
    assert(hotkey_section(source, spec, key, display, None, running) == top + care + on + yes);
    let hints = refused_hints(display, running);
    lemma_hint("global hotkeys are grabbed through X11 (XWayland counts)."@);
    lemma_hint("a daemon is already running and is probably holding this"@);
    lemma_hint("another application probably owns this combination; try"@);
    assert(advises(hints[0]));
    assert(advised(hints));
    let no = seq![row_text("registered"@, "no — "@ + reason)];
    lemma_advised_more(no, hints);
    lemma_advised_more(top + care + on, no + hints);
    let all = hotkey_section(source, spec, key, display, Some(reason), running);
    assert(all == top + care + on + (no + hints));
    assert(all[(top + care + on).len() as int] == no[0]);
}

/// Where there is a native dialog the report says so and advises nothing; where there is
/// none it says what to do. What it is decided from is told as it is.
pub proof fn law_a_missing_dialog_is_explained(probe: Probe, recent: Seq<char>)
    ensures
        advised(dialog_section(probe, recent)) <==> !probe.built_in && !probe.session_bus
            && !probe.zenity,
        portal_text(probe) == "no DBus session bus"@ ==> !probe.built_in && !probe.session_bus,
        zenity_text(probe) == "not on PATH"@ <==> !probe.zenity,
        dialog_section(probe, recent).last() == row_text("recent"@, recent),
{
    reveal_strlit("open dialog");
    reveal_strlit("native");
    reveal_strlit("portal");
    reveal_strlit("zenity");
    reveal_strlit("recent");
    reveal_strlit("no DBus session bus");
    reveal_strlit("a DBus session bus is reachable");
    reveal_strlit("not needed on this platform");
    reveal_strlit("on PATH (rfd's fallback)");
    reveal_strlit("not on PATH");
    assert("no DBus session bus"@.len() == 19);
    assert("a DBus session bus is reachable"@.len() == 31);
    assert("not needed on this platform"@.len() == 27);
    assert("not on PATH"@.len() == 11 && "on PATH (rfd's fallback)"@.len() == 24);
    let has = dialog::has_dialog(probe);
    let native = if has {
        "yes — a native file dialog can be shown"@
    } else {
        NO_DIALOG@
    };
    let s = dialog_section(probe, recent);
    assert("open dialog"@[0] == 'o');
    lemma_row("native"@, native);
    lemma_row("portal"@, portal_text(probe));
    lemma_row("zenity"@, zenity_text(probe));
    lemma_row("recent"@, recent);
    if has {
        assert(s =~= seq![
            "open dialog"@,
            row_text("native"@, native),
            row_text("portal"@, portal_text(probe)),
            row_text("zenity"@, zenity_text(probe)),
            row_text("recent"@, recent),
        ]);
    } else {
        lemma_hint("Ctrl+O still works: it opens the built-in browser pane instead,"@);
        assert(advises(s[4]));
    }
}

} // verus!
