use global_hotkey::hotkey::{Code as Key, HotKey as Grab, Modifiers as Held};
use sekio_gui::hotkey::keys::Named;
use sekio_gui::hotkey::{
    action, attempt, describe, display_server, is_press, outcome, parse, risky, Action, Code,
    DisplayServer, HotKey, Modifier, Modifiers, ParseError, Status, DEFAULT_SPEC,
};
use sekio_gui::path::FilePath;

fn parsed(spec: &str) -> HotKey {
    parse(spec).unwrap_or_else(|err| panic!("{spec:?} should parse: {}", err.message()))
}

fn only(m: Modifier) -> Modifiers {
    Modifiers::empty().and(m)
}

fn path(s: &str) -> FilePath {
    FilePath::new(s)
}

#[test]
fn the_default_spec_parses_and_carries_modifiers() {
    let hotkey = parsed(DEFAULT_SPEC);
    assert_eq!(hotkey.key, Code::Named(Named::Space));
    assert!(hotkey.mods.control);
    assert!(hotkey.mods.shift);
    assert_eq!(describe(&hotkey), "Ctrl+Shift+Space");
    assert_eq!(describe(&parsed("super+p")), "Super+P");
    assert_eq!(describe(&parsed("ctrl+5")), "Ctrl+5");
    assert_eq!(describe(&parsed("alt+f1")), "Alt+F1");
    assert_eq!(describe(&parsed("ctrl+up")), "Ctrl+ArrowUp");
    assert!(risky(&hotkey).is_none(), "the default must not steal a typing key");
}

#[test]
fn every_modifier_and_its_aliases_parse() {
    assert_eq!(parsed("Ctrl+P").mods, only(Modifier::Control));
    assert_eq!(parsed("Control+P").mods, only(Modifier::Control));
    assert_eq!(parsed("Alt+P").mods, only(Modifier::Alt));
    assert_eq!(parsed("Option+P").mods, only(Modifier::Alt));
    assert_eq!(parsed("Shift+P").mods, only(Modifier::Shift));
    for spec in ["Super+P", "Meta+P", "Win+P", "Windows+P", "Cmd+P", "Command+P"] {
        assert_eq!(parsed(spec).mods, only(Modifier::Super), "{spec}");
    }
    assert_eq!(
        parsed("Ctrl+Alt+Shift+Super+F1").mods,
        only(Modifier::Control).and(Modifier::Alt).and(Modifier::Shift).and(Modifier::Super)
    );
}

#[test]
fn parsing_is_case_insensitive_and_ignores_spaces() {
    let want = parsed("Ctrl+Shift+Space");
    for spec in [
        "ctrl+shift+space",
        "CTRL+SHIFT+SPACE",
        "cTrL+ShIfT+sPaCe",
        " Ctrl + Shift + Space ",
    ] {
        assert_eq!(parsed(spec), want, "{spec}");
    }
}

#[test]
fn keys_accept_both_the_short_and_the_w3c_spelling() {
    assert_eq!(parsed("Super+P").key, Code::Letter('P'));
    assert_eq!(parsed("Super+KeyP").key, Code::Letter('P'));
    assert_eq!(parsed("Ctrl+5").key, Code::Digit('5'));
    assert_eq!(parsed("Ctrl+Digit5").key, Code::Digit('5'));
    assert_eq!(parsed("Alt+F1").key, Code::Named(Named::F1));
    assert_eq!(parsed("Alt+f24").key, Code::Named(Named::F24));
    assert_eq!(parsed("Ctrl+Up").key, Code::Named(Named::ArrowUp));
    assert_eq!(parsed("Ctrl+arrowup").key, Code::Named(Named::ArrowUp));
    assert_eq!(parsed("Ctrl+Esc").key, Code::Named(Named::Escape));
    assert_eq!(parsed("Ctrl+/").key, Code::Named(Named::Slash));
    assert_eq!(parsed("Ctrl+PageDown").key, Code::Named(Named::PageDown));
    assert_eq!(parsed("Ctrl+numpad7").key, Code::Named(Named::Numpad7));
}

#[test]
fn a_bare_key_is_allowed_but_flagged_as_risky() {
    let space = parsed("Space");
    assert_eq!(space.mods, Modifiers::empty());
    let warning = risky(&space).expect("an unmodified Space steals the spacebar");
    assert!(warning.contains("Space"), "{warning}");
    assert!(risky(&parsed("A")).is_some());
    assert!(risky(&parsed("F13")).is_none(), "F13 is not a typing key");
}

#[test]
fn an_unknown_modifier_says_which_one_and_shows_an_example() {
    let err = parse("Hyper+P").expect_err("Hyper is not a modifier we map");
    assert_eq!(err, ParseError::UnknownModifier("Hyper".to_string()));
    let text = err.message();
    assert!(text.contains("Hyper"), "must name the token: {text}");
    assert!(text.contains("Ctrl"), "must list the modifiers: {text}");
    assert!(text.contains("Ctrl+Shift+Space"), "must show how: {text}");
}

#[test]
fn an_unknown_key_says_which_one_and_shows_an_example() {
    let err = parse("Ctrl+Banana").expect_err("Banana is not a key");
    assert_eq!(err, ParseError::UnknownKey("Banana".to_string()));
    let text = err.message();
    assert!(text.contains("Banana"), "must name the token: {text}");
    assert!(text.contains("Ctrl+Shift+Space"), "must show how: {text}");
    assert_eq!(parse("Banana"), Err(ParseError::UnknownKey("Banana".to_string())));
}

#[test]
fn empty_and_modifier_only_specs_are_rejected() {
    assert_eq!(parse(""), Err(ParseError::Empty));
    assert_eq!(parse("   "), Err(ParseError::Empty));
    assert_eq!(parse("Ctrl+"), Err(ParseError::EmptyToken));
    assert_eq!(parse("Ctrl++Space"), Err(ParseError::EmptyToken));
    assert_eq!(parse("+Space"), Err(ParseError::EmptyToken));
    assert_eq!(parse("Ctrl+Shift"), Err(ParseError::NoKey));
    assert_eq!(parse("Ctrl+Shift+Alt"), Err(ParseError::NoKey));
    for spec in ["", "Ctrl+", "Ctrl+Shift"] {
        let text = parse(spec).expect_err("must fail").message();
        assert!(text.contains("Ctrl+Shift+Space"), "{spec}: {text}");
    }
}

#[test]
fn a_refused_grab_is_a_warning_value_not_a_startup_error() {
    let display = DisplayServer::Present("X11 (DISPLAY=:0)".to_string());
    let status = attempt("Ctrl+Shift+Space", &display, || {
        Err("HotKey already registered".to_string())
    });
    assert!(!status.is_registered());
    let warning = status.warning().expect("a refusal must be reported");
    assert!(warning.contains("Ctrl+Shift+Space"), "{warning}");
    assert!(warning.contains("already registered"), "{warning}");
    assert!(
        warning.contains("daemon is running anyway"),
        "the daemon must be described as usable: {warning}"
    );
    let ok = attempt("Ctrl+Shift+Space", &display, || Ok(()));
    assert!(ok.is_registered());
    assert_eq!(ok.warning(), None);
}

#[test]
fn a_missing_display_never_reaches_the_platform() {
    let display = DisplayServer::Missing("no display server".to_string());
    let mut asked = false;
    let status = attempt("Alt+F1", &display, || {
        asked = true;
        Ok(())
    });
    assert!(!asked, "must not try to grab without a display");
    assert!(!status.is_registered());
    assert!(status.warning().is_some_and(|w| w.contains("Alt+F1")));
}

#[test]
fn the_display_probe_reports_something_either_way() {
    let x11 = display_server(true, Some(":0".to_string()), None);
    assert_eq!(matches!(x11, DisplayServer::Present(_)), true);
    assert!(x11.label().contains(":0"));
    let wayland = display_server(true, None, Some("wayland-0".to_string()));
    assert_eq!(matches!(wayland, DisplayServer::Missing(_)), true);
    assert!(!wayland.label().is_empty());
    let nothing = display_server(true, None, None);
    assert_eq!(matches!(nothing, DisplayServer::Missing(_)), true);
    assert!(!nothing.label().is_empty());
    let elsewhere = display_server(false, None, None);
    assert_eq!(matches!(elsewhere, DisplayServer::Present(_)), true);
    assert!(!elsewhere.label().is_empty());
}

#[test]
fn what_the_platform_answers_is_the_status() {
    let present = DisplayServer::Present("X11".to_string());
    assert!(outcome("Alt+F1", &present, Ok(())).is_registered());
    assert_eq!(
        outcome("Alt+F1", &present, Err("taken".to_string())),
        Status::Unavailable { spec: "Alt+F1".to_string(), reason: "taken".to_string() }
    );
    let missing = DisplayServer::Missing("none".to_string());
    assert_eq!(
        outcome("Alt+F1", &missing, Ok(())),
        Status::Unavailable { spec: "Alt+F1".to_string(), reason: "none".to_string() }
    );
}

#[test]
fn a_press_on_the_file_already_showing_dismisses_it() {
    let file = path("/tmp/a.txt");
    assert_eq!(
        action(Some(file.copy()), Some(&file)),
        Action::Dismiss,
        "a second press is a dismiss, like Quick Look"
    );
}

#[test]
fn a_press_on_another_file_shows_it() {
    let showing = path("/tmp/a.txt");
    let picked = path("/tmp/b.txt");
    assert_eq!(action(Some(picked.copy()), Some(&showing)), Action::Show(picked.copy()));
    assert_eq!(action(Some(showing.copy()), None), Action::Show(showing.copy()));
}

#[test]
fn no_selection_does_nothing_at_all() {
    assert_eq!(action(None, None), Action::Ignore);
    assert_eq!(
        action(None, Some(&path("/tmp/a.txt"))),
        Action::Ignore,
        "an unresolvable press must not close what is on screen"
    );
}

#[test]
fn a_combination_is_known_by_the_id_it_is_grabbed_under() {
    let id = |held: Held, key: Key| Some(Grab::new(Some(held), key).id());
    assert_eq!(parsed("Ctrl+Shift+Space").id(), id(Held::CONTROL | Held::SHIFT, Key::Space));
    assert_eq!(parsed("Super+P").id(), id(Held::SUPER, Key::KeyP));
    assert_eq!(parsed("Alt+7").id(), id(Held::ALT, Key::Digit7));
    assert_ne!(parsed("Super+P").id(), parsed("Super+Q").id());
    let id = parsed("Super+P").id();
    assert!(is_press(id, id.expect("it can be grabbed"), true));
    assert!(!is_press(id, id.expect("it can be grabbed"), false), "a release is no press");
    assert!(!is_press(None, 0, true));
}

#[test]
fn every_described_key_is_read_back() {
    for spec in ["F1", "numpad0", "Ctrl+Alt+Delete", "Super+Slash", "Shift+9", "a", "Ctrl+Home"] {
        let key = parsed(spec);
        assert_eq!(parsed(&describe(&key)), key, "{spec}");
        assert!(key.id().is_some(), "{spec}");
    }
}

const NAMES: [&str; 78] = [
    "Space", "Enter", "Tab", "Escape", "Backspace", "Delete", "Insert", "Home", "End",
    "PageUp", "PageDown", "ArrowUp", "ArrowDown", "ArrowLeft", "ArrowRight", "CapsLock",
    "NumLock", "ScrollLock", "PrintScreen", "Pause", "Backquote", "Backslash", "BracketLeft",
    "BracketRight", "Comma", "Equal", "Minus", "Period", "Quote", "Semicolon", "Slash", "F1",
    "F2", "F3", "F4", "F5", "F6", "F7", "F8", "F9", "F10", "F11", "F12", "F13", "F14", "F15",
    "F16", "F17", "F18", "F19", "F20", "F21", "F22", "F23", "F24", "Numpad0", "Numpad1",
    "Numpad2", "Numpad3", "Numpad4", "Numpad5", "Numpad6", "Numpad7", "Numpad8", "Numpad9",
    "NumpadAdd", "NumpadSubtract", "NumpadMultiply", "NumpadDivide", "NumpadDecimal",
    "NumpadEnter", "AudioVolumeUp", "AudioVolumeDown", "AudioVolumeMute", "MediaPlayPause",
    "MediaStop", "MediaTrackNext", "MediaTrackPrevious",
];

#[test]
fn every_key_is_called_what_the_system_calls_it() {
    let letters = ('A'..='Z').map(|c| (c.to_string(), format!("Key{c}")));
    let digits = ('0'..='9').map(|c| (c.to_string(), format!("Digit{c}")));
    let named = NAMES.iter().map(|name| (name.to_string(), name.to_string()));
    for (typed, name) in letters.chain(digits).chain(named) {
        let key: Key = name.parse().unwrap_or_else(|_| panic!("{name} is no key"));
        assert_eq!(key.to_string(), name);
        for spelling in [typed.clone(), typed.to_ascii_lowercase(), name.to_ascii_uppercase()] {
            let own = parsed(&spelling);
            assert_eq!(own.key.name(), name, "{spelling}");
            assert_eq!(own.id(), Some(Grab::new(None, key).id()), "{spelling}");
            assert_eq!(describe(&own), typed, "{spelling}");
        }
    }
}

#[test]
fn the_case_of_the_letters_does_not_matter() {
    for spec in ["Ctrl+Shift+Space", "super+p", "ALT+F1", "Meta + PageUp", "cmd+NumpadAdd"] {
        let key = parsed(spec);
        assert_eq!(parsed(&spec.to_ascii_lowercase()), key, "{spec}");
        assert_eq!(parsed(&spec.to_ascii_uppercase()), key, "{spec}");
        assert!(key.id().is_some(), "{spec}");
    }
    assert!(matches!(parse("HYPER+p"), Err(ParseError::UnknownModifier(t)) if t == "HYPER"));
    assert!(matches!(parse("hyper+P"), Err(ParseError::UnknownModifier(t)) if t == "hyper"));
    assert!(matches!(parse("CTRL+shift"), Err(ParseError::NoKey)));
}
