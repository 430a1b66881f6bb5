use sekio_gui::app::{Loaded, Outcome};
use sekio_gui::cli::{
    after_bind, after_handover, cannot_open, first_line, hands_off, held, hotkey_source,
    invalid_hotkey, mode_of, outcome_label, overrides, received_line, recent_label, run_of,
    starts_visible, Args, Resident, Run,
};
use sekio_gui::config::{Location, Overrides, Platform, Settings};
use sekio_gui::console::Attached;
use sekio_gui::content::PreviewContent;
use sekio_gui::dialog::Probe;
use sekio_gui::doctor;
use sekio_gui::hotkey::{parse, DisplayServer, Status};
use sekio_gui::path::FilePath;
use sekio_gui::selection::Origin;
use sekio_gui::state::Mode;
use sekio_gui::style::Theme;

fn path(s: &str) -> FilePath {
    FilePath::new(s)
}

fn args() -> Args {
    Args {
        path: None,
        lines: None,
        wrap: false,
        theme: None,
        no_tray: false,
        config: None,
        no_config: false,
        borderless: false,
        timing: false,
        probe: false,
        daemon: false,
        no_daemon: false,
        hotkey: None,
        no_hotkey: false,
        doctor: false,
    }
}

#[test]
fn a_flag_that_was_not_typed_says_nothing() {
    assert_eq!(overrides(&args()), Overrides::default());
    let typed = overrides(&Args {
        wrap: true,
        no_tray: true,
        lines: Some(3),
        theme: Some(Theme::Light),
        hotkey: Some("Alt+F1".to_owned()),
        ..args()
    });
    assert_eq!(typed.wrap, Some(true));
    assert_eq!(typed.tray, Some(false));
    assert_eq!(typed.lines, Some(3));
    assert_eq!(typed.theme, Some(Theme::Light));
    assert_eq!(typed.hotkey.as_deref(), Some("Alt+F1"));
}

#[test]
fn the_command_line_decides_what_runs() {
    assert_eq!(run_of(&args()), Run::Once);
    assert_eq!(run_of(&Args { daemon: true, ..args() }), Run::Daemon);
    assert_eq!(run_of(&Args { daemon: true, doctor: true, ..args() }), Run::Doctor);
    assert!(!hands_off(&args()), "there is nothing to hand over");
    assert!(hands_off(&Args { path: Some(path("/a")), ..args() }));
    assert!(!hands_off(&Args { path: Some(path("/a")), no_daemon: true, ..args() }));
    assert!(!hands_off(&Args { path: Some(path("/a")), probe: true, ..args() }));
    assert_eq!(mode_of(Some(&path("/a"))), Mode::Popup);
    assert_eq!(mode_of(None), Mode::App);
    assert!(!starts_visible(None, Mode::Daemon));
    assert!(starts_visible(Some(&path("/a")), Mode::Daemon));
    assert!(starts_visible(None, Mode::App));
}

#[test]
fn a_second_daemon_becomes_a_client() {
    let some = path("/a");
    assert_eq!(after_bind(true, Some(&some)), Resident::Serve);
    assert_eq!(after_bind(false, Some(&some)), Resident::HandOver);
    assert_eq!(after_bind(false, None), Resident::Leave);
    assert_eq!(after_handover(true), Resident::Leave);
    assert_eq!(after_handover(false), Resident::ShowHere);
}

#[test]
fn the_hotkey_that_is_held_is_the_one_that_was_granted() {
    let granted = Status::Registered { spec: "Alt+F1".to_owned() };
    let refused = Status::unavailable("Alt+F1", "taken".to_owned());
    assert_eq!(held("Alt+F1".to_owned(), &granted).as_deref(), Some("Alt+F1"));
    assert_eq!(held("Alt+F1".to_owned(), &refused), None);
    assert_eq!(hotkey_source(&args(), false), "default");
    assert_eq!(hotkey_source(&args(), true), "config file");
    let typed = Args { hotkey: Some("x".to_owned()), ..args() };
    assert_eq!(hotkey_source(&typed, true), "--hotkey");
}

#[test]
fn what_is_said_on_the_way() {
    let spec = Some("Ctrl+\"x".to_owned());
    assert_eq!(
        invalid_hotkey(&spec, "why"),
        format!("invalid --hotkey {:?}: why", spec.as_deref())
    );
    assert_eq!(invalid_hotkey(&None, "why"), "invalid --hotkey None: why");
    assert_eq!(cannot_open(&path("/a b")), "cannot open /a b");
    let content = PreviewContent::Listing { entries: Vec::new() };
    let ok = Outcome::Ready(Loaded { content, truncated: false, pictured: false });
    assert_eq!(outcome_label(&ok), "ok");
    assert_eq!(outcome_label(&Outcome::Failed("x".to_owned())), "error: x");
    assert_eq!(outcome_label(&Outcome::Cancelled), "cancelled");
    assert_eq!(first_line(true, "1.5", "ok"), "first preview available after 1.5 ms (ok)");
    assert_eq!(first_line(false, "1.5", ""), "home screen ready after 1.5 ms (no path given)");
    assert_eq!(received_line(&path("/a"), "ok", "2.0"), "received /a (ok, 2.0 ms)");
    assert_eq!(
        recent_label(Some(&path("/s/recent")), 3, 2),
        "3 remembered, 2 still on disk (/s/recent)"
    );
    assert_eq!(recent_label(None, 3, 2), "not stored (no state directory in this environment)");
}

#[test]
fn the_report_on_the_selection() {
    let file = path("/d/a");
    assert_eq!(
        doctor::selection("s", Some((&file, Origin::Clipboard, true)), 7),
        vec!["selection", "  strategy    s", "  selected    /d/a (from the clipboard, 7 ms)"]
    );
    let unusable = doctor::selection("s", Some((&file, Origin::FileManager, false)), 7);
    assert_eq!(unusable[3], "  usable      no — not an existing absolute path");
    assert_eq!(
        unusable[4],
        "              → a press would find nothing to preview: sekio only opens"
    );
    assert_eq!(unusable[6], "                than copying its name.");
    let nothing = doctor::selection("s", None, 0);
    assert_eq!(nothing[2], "  selected    nothing (0 ms)");
    assert_eq!(nothing.len(), 7);
}

#[test]
fn the_report_on_the_hotkey() {
    let key = parse("Super+P").expect("a good spec");
    let present = DisplayServer::Present("X11".to_owned());
    let granted = Status::Registered { spec: "Super+P".to_owned() };
    assert_eq!(
        doctor::hotkey("default", "super+p", &key, &present, &granted, false),
        vec![
            "hotkey",
            "  spec        super+p (default)",
            "  parsed      Super+P",
            "  display     X11",
            "  registered  yes — this session hands the key over",
        ]
    );
    let refused = Status::unavailable("Super+P", "taken".to_owned());
    let lines = doctor::hotkey("default", "super+p", &key, &present, &refused, false);
    assert_eq!(lines[4], "  registered  no — taken");
    assert!(lines[5].contains("another application"));
    let lines = doctor::hotkey("default", "super+p", &key, &present, &refused, true);
    assert!(lines[5].contains("already running"));
    let missing = DisplayServer::Missing("none".to_owned());
    let lines = doctor::hotkey("default", "super+p", &key, &missing, &refused, true);
    assert!(lines[5].contains("X11"), "a missing display explains it alone");
    let bare = parse("Space").expect("a good spec");
    let lines = doctor::hotkey("default", "space", &bare, &present, &granted, false);
    assert!(lines[3].starts_with("  careful     Space has no modifier"));
    assert_eq!(doctor::no_hotkey().len(), 3);
    assert!(doctor::no_hotkey()[2].contains("Ctrl+Shift+Space"));
}

#[test]
fn the_report_on_everything_else() {
    assert!(doctor::console(Platform::Unix, Attached::NotWindows).is_empty());
    assert_eq!(doctor::console(Platform::Windows, Attached::Parent).len(), 3);
    assert_eq!(doctor::console(Platform::Windows, Attached::NoConsole).len(), 6);

    let dialog = doctor::dialog(Probe::default(), "3 remembered");
    assert_eq!(dialog[0], "open dialog");
    assert_eq!(dialog.len(), 8);
    assert_eq!(dialog[7], "  recent      3 remembered");
    let native = Probe { zenity: true, ..Probe::default() };
    assert_eq!(doctor::dialog(native, "x").len(), 5);

    assert_eq!(
        doctor::daemon(&path("/run/s.sock"), true),
        vec!["daemon", "  socket      /run/s.sock", "  running     yes — it answers on that socket"]
    );
    assert_eq!(doctor::daemon(&path("/run/s.sock"), false).len(), 6);

    assert_eq!(doctor::tray(false, None)[1], "  icon        off (tray = false / --no-tray)");
    assert_eq!(doctor::tray(true, Some("a panel"))[1], "  icon        yes — a panel");
    assert_eq!(doctor::tray(true, None).len(), 5);

    let settings = Settings::default();
    let lines = doctor::config(&Location::Default(Some(path("/c"))), true, &settings);
    assert_eq!(
        lines,
        vec![
            "config",
            "  file        /c (read)",
            "  theme       system",
            "  lines       500",
            "  wrap        false",
        ]
    );
    let lines = doctor::config(&Location::Default(Some(path("/c"))), false, &settings);
    assert_eq!(lines[1], "  file        /c (not present)");
    let lines = doctor::config(&Location::Explicit(path("/c")), true, &settings);
    assert_eq!(lines[1], "  file        /c (--config)");
    let lines = doctor::config(&Location::Disabled, true, &settings);
    assert_eq!(lines[1], "  file        ignored (--no-config)");
    assert_eq!(doctor::config(&Location::Default(None), true, &settings).len(), 6);
}
