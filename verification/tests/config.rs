use std::cell::RefCell;

use sekio_gui::config::rewrite::{toml_string, value_len, with_hotkey, with_setting};
use sekio_gui::config::save::{
    save_hotkey, save_on_close, save_setting, save_theme, Existing, SaveError,
};
use sekio_gui::config::{
    default_config_path, is_absolute_on, load, load_file, resolve, validate, Config, Loaded,
    Location, Overrides, Platform, Reading, Settings, DEFAULT_TRAY, DEFAULT_UPDATES, FILE,
};
use sekio_gui::content::{PreviewOptions, DEFAULT_LINES};
use sekio_gui::hotkey;
use sekio_gui::path::FilePath;
use sekio_gui::state::OnClose;
use sekio_gui::style::Theme;
use sekio_gui::text::chars_of;

fn path(s: &str) -> FilePath {
    FilePath::new(s)
}

/// The settings that a file's text holds, read by the TOML parser.
fn parse(text: &str) -> Result<Config, String> {
    let table: toml::Table = toml::from_str(text).map_err(|e| e.to_string())?;
    let mut config = Config::default();
    for (key, value) in table {
        match key.as_str() {
            "hotkey" => config.hotkey = value.as_str().map(str::to_owned),
            "tray" => config.tray = value.as_bool(),
            "updates" => config.updates = value.as_bool(),
            "lines" => config.lines = value.as_integer().map(|n| n as usize),
            "wrap" => config.wrap = value.as_bool(),
            "theme" => config.theme = value.as_str().map(str::to_owned),
            "on_close" => config.on_close = value.as_str().map(str::to_owned),
            _ => return Err(format!("unknown field `{key}`")),
        }
    }
    Ok(config)
}

fn reading(text: &str) -> Reading {
    match parse(text) {
        Ok(config) => Reading::Parsed(config),
        Err(why) => Reading::Malformed(why),
    }
}

fn loaded(text: &str) -> Loaded {
    load_file(&file(), false, reading(text))
}

fn file() -> FilePath {
    path("/tmp/sekio-gui-cfg").join_str(FILE)
}

/// A file that is written and read again.
struct Disk {
    text: RefCell<Option<String>>,
}

impl Disk {
    fn holding(text: &str) -> Disk {
        Disk { text: RefCell::new(Some(text.to_owned())) }
    }

    fn empty() -> Disk {
        Disk { text: RefCell::new(None) }
    }

    fn existing(&self) -> Existing {
        match self.text.borrow().as_ref() {
            Some(text) => Existing::Text(text.clone()),
            None => Existing::Missing,
        }
    }

    fn put(&self, text: String) -> Result<(), String> {
        *self.text.borrow_mut() = Some(text);
        Ok(())
    }

    fn text(&self) -> String {
        self.text.borrow().clone().expect("something was written")
    }

    fn load(&self) -> Loaded {
        load_file(&file(), true, reading(&self.text()))
    }

    fn hotkey(&self, spec: &str) -> Result<(), SaveError> {
        save_hotkey(&file(), spec, || self.existing(), |text| self.put(text))
    }

    fn theme(&self, theme: Theme) -> Result<(), SaveError> {
        save_theme(&file(), theme, || self.existing(), |text| self.put(text))
    }

    fn on_close(&self, answer: OnClose) -> Result<(), SaveError> {
        save_on_close(&file(), answer, || self.existing(), |text| self.put(text))
    }
}

#[test]
fn malformed_toml_degrades_to_defaults_with_a_warning() {
    let path = file();
    let loaded = load_file(&path, true, reading("lines = = 3\n[theme\n"));
    assert_eq!(
        loaded.config,
        Config::default(),
        "a broken config must fall back to defaults, not half-apply"
    );
    assert_eq!(loaded.warnings.len(), 1);
    let warning = &loaded.warnings[0];
    assert!(
        warning.contains(&path.display()),
        "the warning must name the file: {warning}"
    );
    assert!(warning.contains("defaults"), "{warning}");
    assert_eq!(resolve(&Overrides::default(), &loaded.config), Settings::default());
}

#[test]
fn an_unknown_key_in_a_real_file_warns_but_starts() {
    let loaded = loaded("lines = 7\nlinez = 9\n");
    assert_eq!(loaded.config, Config::default());
    assert!(loaded.warnings[0].contains("linez"), "{:?}", loaded.warnings);
}

#[test]
fn an_invalid_hotkey_warns_and_falls_back() {
    let loaded = loaded("hotkey = \"Ctrl+Nope\"\nlines = 7\n");

    assert_eq!(loaded.warnings.len(), 1, "{:?}", loaded.warnings);
    let warning = &loaded.warnings[0];
    assert!(warning.contains("Ctrl+Nope"), "{warning}");
    assert!(
        warning.contains(hotkey::DEFAULT_SPEC),
        "the warning must name the fallback: {warning}"
    );

    assert_eq!(loaded.config.hotkey, None);
    assert_eq!(loaded.config.lines, Some(7));
    let settings = resolve(&Overrides::default(), &loaded.config);
    assert_eq!(settings.hotkey.as_deref(), Some(hotkey::DEFAULT_SPEC));
    assert_eq!(settings.lines, 7);
}

#[test]
fn an_unknown_on_close_warns_and_falls_back() {
    let loaded = loaded("on_close = \"maybe\"\nlines = 7\n");

    assert_eq!(loaded.warnings.len(), 1, "{:?}", loaded.warnings);
    let warning = &loaded.warnings[0];
    assert!(warning.contains("maybe"), "{warning}");
    for name in OnClose::names() {
        assert!(warning.contains(name), "{name} missing from: {warning}");
    }
    assert_eq!(loaded.config.on_close, None);
    assert_eq!(loaded.config.lines, Some(7), "the rest of the file survives");
    assert_eq!(
        resolve(&Overrides::default(), &loaded.config).on_close,
        OnClose::Ask,
        "dropping the field is what makes the default apply"
    );
}

#[test]
fn on_close_comes_from_the_file_or_the_default() {
    assert_eq!(resolve(&Overrides::default(), &Config::default()).on_close, OnClose::Ask);
    let cfg = Config { on_close: Some("quit".to_owned()), ..Config::default() };
    assert_eq!(resolve(&Overrides::default(), &cfg).on_close, OnClose::Quit);
}

#[test]
fn an_unknown_theme_warns_and_falls_back() {
    let loaded = loaded("theme = \"solarized\"\nlines = 7\n");

    assert_eq!(loaded.warnings.len(), 1, "{:?}", loaded.warnings);
    let warning = &loaded.warnings[0];
    assert!(warning.contains("solarized"), "{warning}");
    assert!(
        warning.contains(Theme::default().as_str()),
        "the warning must name the fallback: {warning}"
    );
    for name in Theme::names() {
        assert!(warning.contains(name), "{name} missing from: {warning}");
    }

    assert_eq!(loaded.config.theme, None);
    assert_eq!(loaded.config.lines, Some(7), "the rest of the file survives");
    let settings = resolve(&Overrides::default(), &loaded.config);
    assert_eq!(settings.theme, Theme::default());

    for name in Theme::names() {
        let mut config = Config { theme: Some(name.to_owned()), ..Config::default() };
        assert!(validate(&mut config).is_empty(), "{name}");
        assert_eq!(config.theme.as_deref(), Some(name));
    }
}

#[test]
fn a_zero_line_limit_warns_and_falls_back() {
    let mut config = Config { lines: Some(0), ..Config::default() };
    let warnings = validate(&mut config);
    assert_eq!(warnings.len(), 1, "{warnings:?}");
    assert!(warnings[0].contains("lines = 0"), "{:?}", warnings[0]);
    assert_eq!(config.lines, None);
    assert_eq!(resolve(&Overrides::default(), &config).lines, DEFAULT_LINES);
}

#[test]
fn everything_wrong_is_complained_of_at_once() {
    let mut config = Config {
        hotkey: Some("Nope+P".to_owned()),
        lines: Some(0),
        theme: Some("x".to_owned()),
        on_close: Some("y".to_owned()),
        ..Config::default()
    };
    assert_eq!(validate(&mut config).len(), 4);
    assert_eq!(config, Config::default());
    assert!(validate(&mut config).is_empty(), "there is nothing left to complain of");
}

#[test]
fn a_good_file_loads_with_no_warnings() {
    let loaded = loaded("hotkey = \"Super+P\"\ntray = false\nwrap = true\ntheme = \"light\"\n");
    assert!(loaded.warnings.is_empty(), "{:?}", loaded.warnings);
    let settings = resolve(&Overrides::default(), &loaded.config);
    assert_eq!(settings.hotkey.as_deref(), Some("Super+P"));
    assert!(!settings.tray);
    assert!(settings.wrap);
    assert_eq!(settings.theme, Theme::Light);
}

#[test]
fn a_missing_file_is_silent_by_default_and_loud_when_asked_for() {
    let missing = path("/tmp/sekio-gui-does-not-exist-4b7a").join_str(FILE);
    let gone = || Reading::Missing("No such file or directory".to_owned());

    let quiet = load_file(&missing, false, gone());
    assert!(quiet.warnings.is_empty(), "an absent config is normal");
    assert_eq!(quiet.config, Config::default());

    let loud = load_file(&missing, true, gone());
    assert_eq!(loud.warnings.len(), 1, "an explicit path should warn");
    assert!(loud.warnings[0].contains(FILE), "{:?}", loud.warnings[0]);
    assert_eq!(loud.config, Config::default());

    let locked = load_file(&missing, false, Reading::Unreadable("denied".to_owned()));
    assert_eq!(locked.warnings.len(), 1, "a file that is there and cannot be read is told of");
    assert!(locked.warnings[0].contains("denied"));
}

fn nothing() -> Loaded {
    Loaded { config: Config::default(), warnings: Vec::new() }
}

#[test]
fn a_disabled_or_unresolvable_location_loads_nothing() {
    let at = file();
    let lines = |_: &FilePath| reading("lines = 7\n");

    let disabled = Location::resolve(Some(at.copy()), true, None);
    assert_eq!(disabled, Location::Disabled);
    assert_eq!(load(&disabled, lines), nothing());
    assert_eq!(disabled.write_target(), None);

    let explicit = Location::resolve(Some(at.copy()), false, None);
    assert_eq!(load(&explicit, lines).config.lines, Some(7));
    assert_eq!(explicit.write_target(), Some(&at));

    let nowhere = Location::resolve(None, false, None);
    assert_eq!(nowhere, Location::Default(None));
    assert_eq!(load(&nowhere, lines), nothing());
    assert_eq!(
        nowhere.write_target(),
        None,
        "with nowhere to write, a tray change simply does not persist"
    );
}

fn some(s: &str) -> Option<FilePath> {
    Some(path(s))
}

#[test]
fn unix_config_path_prefers_xdg_then_home() {
    let xdg = default_config_path(Platform::Unix, some("/xdg"), some("/home/u"), None);
    assert_eq!(xdg, Some(path("/xdg").join_str("sekio").join_str(FILE)));

    let home = default_config_path(Platform::Unix, None, some("/home/u"), None);
    assert_eq!(
        home,
        Some(path("/home/u").join_str(".config").join_str("sekio").join_str(FILE))
    );

    assert_eq!(default_config_path(Platform::Unix, some(""), some("/home/u"), None), home);
    assert_eq!(
        default_config_path(Platform::Unix, some("relative/dir"), some("/home/u"), None),
        home
    );

    assert_eq!(default_config_path(Platform::Unix, None, None, None), None);
}

#[test]
fn windows_config_path_uses_appdata() {
    let appdata = r"C:\Users\u\AppData\Roaming";
    assert_eq!(
        default_config_path(Platform::Windows, None, None, some(appdata)),
        Some(path(appdata).join_str("sekio").join_str(FILE))
    );
    assert_eq!(default_config_path(Platform::Windows, some("/xdg"), some("/home/u"), None), None);
    assert_eq!(default_config_path(Platform::Windows, None, None, some("")), None);
}

#[test]
fn the_two_platforms_disagree_about_the_same_environment() {
    let appdata = r"C:\Users\u\AppData\Roaming";
    let unix =
        default_config_path(Platform::Unix, some("/xdg"), some("/home/u"), some(appdata))
            .expect("unix path");
    let windows =
        default_config_path(Platform::Windows, some("/xdg"), some("/home/u"), some(appdata))
            .expect("windows path");
    assert_ne!(unix, windows);
    assert_eq!(unix.display().replace('\\', "/"), format!("/xdg/sekio/{FILE}"));
    assert_eq!(
        windows.display().replace('/', "\\"),
        format!(r"C:\Users\u\AppData\Roaming\sekio\{FILE}")
    );
}

#[test]
fn absoluteness_follows_the_emulated_platform_not_the_host() {
    assert!(is_absolute_on(Platform::Unix, &path("/xdg")));
    assert!(!is_absolute_on(Platform::Unix, &path("relative/xdg")));
    assert!(!is_absolute_on(Platform::Unix, &path(r"C:\Users")));

    assert!(is_absolute_on(Platform::Windows, &path(r"C:\Users")));
    assert!(is_absolute_on(Platform::Windows, &path("C:/Users")));
    assert!(is_absolute_on(Platform::Windows, &path(r"\\server\share")));
    assert!(!is_absolute_on(Platform::Windows, &path("/xdg")));
    assert!(!is_absolute_on(Platform::Windows, &path("C:")));
}

#[test]
fn current_platform_matches_the_build_target() {
    let expected =
        if std::path::MAIN_SEPARATOR == '\\' { Platform::Windows } else { Platform::Unix };
    assert_eq!(Platform::current(), expected);
    assert_eq!(Platform::with_separator('\\'), Platform::Windows);
    assert_eq!(Platform::with_separator('/'), Platform::Unix);
}

fn full_config() -> Config {
    Config {
        hotkey: Some("Alt+F1".to_owned()),
        tray: Some(false),
        lines: Some(100),
        wrap: Some(true),
        theme: Some("light".to_owned()),
        updates: Some(false),
        on_close: Some("quit".to_owned()),
    }
}

fn full_overrides() -> Overrides {
    Overrides {
        hotkey: Some("Super+P".to_owned()),
        no_hotkey: false,
        tray: Some(true),
        lines: Some(1),
        wrap: Some(false),
        theme: Some(Theme::Dark),
        updates: Some(true),
    }
}

#[test]
fn defaults_apply_when_neither_layer_says_anything() {
    let settings = resolve(&Overrides::default(), &Config::default());
    assert_eq!(settings.hotkey.as_deref(), Some(hotkey::DEFAULT_SPEC));
    assert_eq!(settings.tray, DEFAULT_TRAY);
    assert_eq!(settings.lines, DEFAULT_LINES);
    assert!(!settings.wrap);
    assert_eq!(settings.theme, Theme::System, "with nothing said, sekio matches the desktop");
}

#[test]
fn config_beats_defaults() {
    let settings = resolve(&Overrides::default(), &full_config());
    assert_eq!(settings.hotkey.as_deref(), Some("Alt+F1"));
    assert!(!settings.tray);
    assert_eq!(settings.lines, 100);
    assert!(settings.wrap);
    assert_eq!(settings.theme, Theme::Light);
}

#[test]
fn flags_beat_config() {
    let settings = resolve(&full_overrides(), &full_config());
    assert_eq!(settings.hotkey.as_deref(), Some("Super+P"));
    assert!(settings.tray, "`--tray` must beat `tray = false`");
    assert_eq!(settings.lines, 1);
    assert!(
        !settings.wrap,
        "an explicit `--no-wrap` must beat `wrap = true` in the config"
    );
    assert_eq!(
        settings.theme,
        Theme::Dark,
        "`--theme dark` must beat `theme = \"light\"` in the config"
    );
}

#[test]
fn flags_beat_defaults_with_no_config_file() {
    let settings = resolve(&full_overrides(), &Config::default());
    assert_eq!(settings.hotkey.as_deref(), Some("Super+P"));
    assert!(settings.tray);
    assert_eq!(settings.lines, 1);
    assert!(!settings.wrap);
    assert_eq!(settings.theme, Theme::Dark);
}

#[test]
fn an_untyped_flag_does_not_clobber_the_config() {
    let cli = Overrides { lines: Some(9), ..Overrides::default() };
    let settings = resolve(&cli, &full_config());
    assert_eq!(settings.lines, 9, "the typed flag wins");
    assert_eq!(
        settings.hotkey.as_deref(),
        Some("Alt+F1"),
        "the untyped one leaves config alone"
    );
    assert!(!settings.tray, "config's tray must survive");
    assert!(settings.wrap, "config's wrap must survive");
    assert_eq!(
        settings.theme,
        Theme::Light,
        "config's theme must survive an untyped --theme"
    );
}

#[test]
fn the_update_check_is_on_unless_something_turns_it_off() {
    assert!(Settings::default().updates, "on by default");

    let off = Config { updates: Some(false), ..Config::default() };
    assert!(!resolve(&Overrides::default(), &off).updates);

    let on = Config { updates: Some(true), ..Config::default() };
    let flag = Overrides { updates: Some(false), ..Overrides::default() };
    assert!(!resolve(&flag, &on).updates);
}

#[test]
fn a_flag_typed_with_the_default_value_still_wins() {
    let cli = Overrides {
        lines: Some(DEFAULT_LINES),
        hotkey: Some(hotkey::DEFAULT_SPEC.to_owned()),
        wrap: Some(false),
        tray: Some(DEFAULT_TRAY),
        no_hotkey: false,
        theme: Some(Theme::default()),
        updates: Some(DEFAULT_UPDATES),
    };
    let settings = resolve(&cli, &full_config());
    assert_eq!(settings.lines, DEFAULT_LINES);
    assert_eq!(settings.hotkey.as_deref(), Some(hotkey::DEFAULT_SPEC));
    assert!(!settings.wrap);
    assert_eq!(settings.tray, DEFAULT_TRAY);
    assert_eq!(settings.theme, Theme::default());
    assert_eq!(settings.on_close, OnClose::Quit);
    assert_eq!(settings, Settings { on_close: OnClose::Quit, ..Settings::default() });
}

#[test]
fn no_hotkey_beats_every_layer() {
    let cli = Overrides { no_hotkey: true, ..full_overrides() };
    assert_eq!(resolve(&cli, &full_config()).hotkey, None);
    assert_eq!(
        resolve(&Overrides { no_hotkey: true, ..Overrides::default() }, &full_config()).hotkey,
        None
    );
}

#[test]
fn the_resolved_settings_reach_core_and_the_hotkey_layer() {
    let settings =
        resolve(&Overrides { lines: Some(42), ..Overrides::default() }, &Config::default());
    assert_eq!(settings.preview_options().max_lines, 42);
    assert_eq!(settings.preview_options().max_bytes, PreviewOptions::default().max_bytes);

    let (spec, key) = settings
        .binding()
        .expect("the default spec must parse")
        .expect("a hotkey is bound by default");
    assert_eq!(spec, hotkey::DEFAULT_SPEC);
    assert_eq!(hotkey::describe(&key), hotkey::DEFAULT_SPEC);

    let none =
        resolve(&Overrides { no_hotkey: true, ..Overrides::default() }, &Config::default());
    assert_eq!(none.binding().expect("no spec to fail on"), None);

    let typed = resolve(
        &Overrides { hotkey: Some("Ctrl+Nope".to_owned()), ..Overrides::default() },
        &Config::default(),
    );
    assert!(typed.binding().is_err());
}

#[test]
fn saving_a_hotkey_round_trips() {
    let disk = Disk::empty();
    disk.hotkey("Super+P").expect("save into a fresh file");

    let loaded = disk.load();
    assert!(loaded.warnings.is_empty(), "{:?}", loaded.warnings);
    assert_eq!(loaded.config.hotkey.as_deref(), Some("Super+P"));
    assert_eq!(
        resolve(&Overrides::default(), &loaded.config).hotkey.as_deref(),
        Some("Super+P")
    );

    disk.hotkey("Alt+F1").expect("save over an existing value");
    let text = disk.text();
    assert_eq!(text.matches("hotkey").count(), 1, "{text}");
    assert_eq!(disk.load().config.hotkey.as_deref(), Some("Alt+F1"));
}

#[test]
fn saving_keeps_comments_and_unrelated_keys() {
    let before = "\
## sekio-gui configuration.

## The global hotkey.
hotkey = \"Ctrl+Shift+Space\"  # changed from Super+P

## Max lines of text per preview.
lines = 250
tray = false
# wrap = false
";
    let disk = Disk::holding(before);
    disk.hotkey("Alt+F1").expect("save");
    let text = disk.text();

    assert!(text.contains("## sekio-gui configuration."), "{text}");
    assert!(text.contains("## The global hotkey."), "{text}");
    assert!(text.contains("## Max lines of text per preview."), "{text}");
    assert!(
        text.contains("# changed from Super+P"),
        "the trailing comment must survive: {text}"
    );
    assert!(
        text.contains("# wrap = false"),
        "a commented-out key must stay commented: {text}"
    );
    assert!(text.contains("hotkey = \"Alt+F1\""), "{text}");
    assert!(!text.contains("Ctrl+Shift+Space"), "{text}");

    let loaded = disk.load();
    assert!(loaded.warnings.is_empty(), "{:?}", loaded.warnings);
    assert_eq!(loaded.config.lines, Some(250));
    assert_eq!(loaded.config.tray, Some(false));
    assert_eq!(loaded.config.wrap, None);
    assert_eq!(loaded.config.hotkey.as_deref(), Some("Alt+F1"));
}

#[test]
fn saving_refuses_an_invalid_hotkey_without_touching_the_file() {
    let disk = Disk::holding("hotkey = \"Super+P\"\n");
    let err = disk.hotkey("Ctrl+Nope").expect_err("an unparseable spec");
    match &err {
        SaveError::Hotkey { spec, .. } => assert_eq!(spec, "Ctrl+Nope"),
        other => panic!("expected a hotkey error, got {other:?}"),
    }
    assert!(err.message().contains("Ctrl+Nope"), "{}", err.message());
    assert_eq!(
        disk.text(),
        "hotkey = \"Super+P\"\n",
        "a refused save must not have written anything"
    );
}

#[test]
fn saving_reports_an_unwritable_path_instead_of_panicking() {
    let err = save_hotkey(
        &file(),
        "Super+P",
        || Existing::Unreadable("Is a directory".to_owned()),
        |_| panic!("what cannot be read must not be written over"),
    )
    .expect_err("cannot write over a directory");
    assert!(matches!(err, SaveError::Io { .. }), "{err:?}");
    assert!(err.message().contains(FILE), "{}", err.message());

    let err = save_setting(
        &file(),
        "theme",
        "dark",
        || Existing::Missing,
        |_| Err("disk full".to_owned()),
    )
    .expect_err("a write that fails is told of");
    assert!(err.message().contains("disk full"), "{}", err.message());
}

#[test]
fn saving_an_answer_to_the_close_dialog_round_trips() {
    let disk = Disk::holding("# mine\nhotkey = \"Super+P\"  # keep me\n");

    disk.on_close(OnClose::Tray).expect("an answer should save");
    let loaded = disk.load();
    assert!(loaded.warnings.is_empty(), "{:?}", loaded.warnings);
    assert_eq!(resolve(&Overrides::default(), &loaded.config).on_close, OnClose::Tray);
    let text = disk.text();
    assert!(text.contains("# mine"), "the comment survives: {text}");
    assert!(text.contains("# keep me"), "{text}");

    disk.on_close(OnClose::Quit).expect("a second answer should save");
    let text = disk.text();
    assert_eq!(text.matches("on_close").count(), 1, "{text}");
    assert_eq!(resolve(&Overrides::default(), &disk.load().config).on_close, OnClose::Quit);
}

#[test]
fn saving_a_theme_round_trips_and_leaves_the_rest_of_the_file_alone() {
    let disk = Disk::empty();
    disk.theme(Theme::Light).expect("a theme should save");
    let loaded = disk.load();
    assert!(loaded.warnings.is_empty(), "{:?}", loaded.warnings);
    assert_eq!(loaded.config.theme.as_deref(), Some("light"));

    let disk = Disk::holding(
        "# mine\nhotkey = \"Super+P\"  # keep me\ntheme = \"light\"\nlines = 42\n",
    );
    disk.theme(Theme::Dark).expect("a theme should save");
    assert_eq!(
        disk.text(),
        "# mine\nhotkey = \"Super+P\"  # keep me\ntheme = \"dark\"\nlines = 42\n",
        "only the theme value may change"
    );

    disk.hotkey("Alt+F1").expect("a hotkey should save");
    let loaded = disk.load();
    assert_eq!(loaded.config.hotkey.as_deref(), Some("Alt+F1"));
    assert_eq!(loaded.config.theme.as_deref(), Some("dark"));
    assert_eq!(loaded.config.lines, Some(42));
}

#[test]
fn a_key_that_merely_starts_with_the_one_we_want_is_not_it() {
    assert_eq!(
        with_setting("theme_name = \"x\"\n", "theme", "dark"),
        "theme_name = \"x\"\ntheme = \"dark\"\n"
    );
}

#[test]
fn with_hotkey_appends_when_the_key_is_absent() {
    assert_eq!(with_hotkey("", "Super+P"), "hotkey = \"Super+P\"\n");
    assert_eq!(
        with_hotkey("lines = 7\n", "Super+P"),
        "lines = 7\nhotkey = \"Super+P\"\n"
    );
    assert_eq!(
        with_hotkey("lines = 7", "Super+P"),
        "lines = 7\nhotkey = \"Super+P\"\n"
    );
    assert_eq!(
        with_hotkey("# hotkey = \"Alt+F1\"\n", "Super+P"),
        "# hotkey = \"Alt+F1\"\nhotkey = \"Super+P\"\n"
    );
    assert_eq!(
        with_hotkey("hotkeys = 2\n", "Super+P"),
        "hotkeys = 2\nhotkey = \"Super+P\"\n"
    );
}

#[test]
fn with_hotkey_edits_in_place_and_keeps_the_line_around_it() {
    assert_eq!(
        with_hotkey("hotkey = \"Alt+F1\"\n", "Super+P"),
        "hotkey = \"Super+P\"\n"
    );
    assert_eq!(
        with_hotkey("  hotkey='Alt+F1'   # why\nlines = 7\n", "Super+P"),
        "  hotkey=\"Super+P\"   # why\nlines = 7\n"
    );
    assert_eq!(
        with_hotkey("## doc\nlines = 7\nhotkey = \"Alt+F1\"\nwrap = true\n", "Super+P"),
        "## doc\nlines = 7\nhotkey = \"Super+P\"\nwrap = true\n"
    );
}

#[test]
fn with_hotkey_never_writes_a_bare_key_into_a_table() {
    let text = "lines = 7\n\n[future]\nx = 1\n";
    let out = with_hotkey(text, "Super+P");
    assert_eq!(out, "lines = 7\n\nhotkey = \"Super+P\"\n[future]\nx = 1\n");
    let text = "[future]\nhotkey = \"Alt+F1\"\n";
    assert_eq!(
        with_hotkey(text, "Super+P"),
        "hotkey = \"Super+P\"\n[future]\nhotkey = \"Alt+F1\"\n"
    );
}

#[test]
fn with_hotkey_keeps_windows_line_endings() {
    assert_eq!(
        with_hotkey("lines = 7\r\nhotkey = \"Alt+F1\"\r\n", "Super+P"),
        "lines = 7\r\nhotkey = \"Super+P\"\r\n"
    );
    assert_eq!(
        with_hotkey("lines = 7\r\n", "Super+P"),
        "lines = 7\r\nhotkey = \"Super+P\"\r\n"
    );
}

#[test]
fn a_spec_with_toml_metacharacters_round_trips() {
    for spec in ["Ctrl+\\", "Ctrl+'", "Ctrl+Alt+\\"] {
        assert!(
            hotkey::parse(spec).is_ok(),
            "{spec} should be a valid spec for this test to mean anything"
        );
        let text = with_hotkey("", spec);
        let config = parse(&text).unwrap_or_else(|e| panic!("{spec}: {text:?}: {e}"));
        assert_eq!(config.hotkey.as_deref(), Some(spec), "{text:?}");
    }
    assert_eq!(toml_string("a\"b\\c"), r#""a\"b\\c""#);
    assert_eq!(toml_string("a\tb"), r#""a\tb""#);
    assert_eq!(toml_string("\u{1}"), r#""\u0001""#);
}

#[test]
fn a_value_ends_where_the_comment_begins() {
    let value_len = |s: &str| value_len(&chars_of(s));
    assert_eq!(value_len("\"Alt+F1\"  # note"), 8);
    assert_eq!(value_len("'Alt+F1'  # note"), 8);
    assert_eq!(value_len("\"a\\\"b\" rest"), 6);
    assert_eq!(value_len("true # note"), 4);
    assert_eq!(value_len("\"unterminated"), 13);
    assert_eq!(value_len("'unterminated"), 13);
    assert_eq!(value_len("\"\" # note"), 2);
    assert_eq!(value_len("'' # note"), 2);
}

#[test]
fn a_value_in_three_quotes_is_one_value() {
    let value_len = |s: &str| value_len(&chars_of(s));
    assert_eq!(value_len("'''Alt+F1'''  # mine"), 12);
    assert_eq!(value_len("\"\"\"Alt+F1\"\"\"  # mine"), 12);
    assert_eq!(value_len("\"\"\"a\\\"\"\"\"b"), 9, "an escaped quote closes nothing");
    assert_eq!(value_len("'''a\\'''b"), 8, "nothing is escaped here");
    assert_eq!(value_len("'''a'b''c''' # x"), 12, "one or two do not close it");
    assert_eq!(value_len("'''a''''' # x"), 9, "two more belong to it");
    assert_eq!(value_len("\"\"\"a\"\"\"\"# x"), 8, "one more belongs to it");
    assert_eq!(value_len("'''''' # x"), 6);
    assert_eq!(value_len("'''open # x"), 11);
    assert_eq!(value_len("\"\"\"open\\"), 8);

    assert_eq!(
        with_hotkey("hotkey = '''Alt+F1'''  # mine\n", "Super+P"),
        "hotkey = \"Super+P\"  # mine\n"
    );
    assert_eq!(
        with_hotkey("hotkey = \"\"\"Alt+F1\"\"\"  # mine\n", "Super+P"),
        "hotkey = \"Super+P\"  # mine\n"
    );
}

#[test]
fn a_saved_setting_is_all_that_changes_in_the_file() {
    let files = [
        "",
        "lines = 7",
        "# mine\nlines = 7\r\n\nhotkey = \"Alt+F1\" # why\n\ttheme='dark'\n",
        "hotkey = '''a'''\n",
        "hotkey = \"\"\"a\"\"\"# b\ntray = false\n",
        "hotkey = ''''''\non_close = \"\"\"\\\"q\"\"\"\"\n",
        "theme = '''it's''''' # x\nwrap = true",
        "updates=true\non_close=\"\"\nhotkey=\"a\\\\\" #\n",
    ];
    for text in files {
        let before = parse(text).unwrap_or_else(|e| panic!("{text:?}: {e}"));
        for value in ["", "Super+P", "a \"b\" \\ c", "'''", "# no", "nl\nx"] {
            for key in ["hotkey", "theme", "on_close"] {
                let out = with_setting(text, key, value);
                let after = parse(&out).unwrap_or_else(|e| panic!("{out:?}: {e}"));
                let pick = |c: &Config, k: &str| match k {
                    "hotkey" => c.hotkey.clone(),
                    "theme" => c.theme.clone(),
                    _ => c.on_close.clone(),
                };
                for field in ["hotkey", "theme", "on_close"] {
                    let wanted = if field == key {
                        Some(value.to_owned())
                    } else {
                        pick(&before, field)
                    };
                    assert_eq!(pick(&after, field), wanted, "{field} in {out:?}");
                }
                assert_eq!(
                    (after.tray, after.updates, after.lines, after.wrap),
                    (before.tray, before.updates, before.lines, before.wrap),
                    "{out:?}"
                );
            }
        }
    }
}

#[test]
fn what_is_quoted_is_read_back_by_the_parser() {
    for raw in ["plain", "a\"b", "back\\slash", "tab\there", "bell\u{7}", "nl\nx", "é✓", "\u{7f}"] {
        let text = with_setting("", "theme", raw);
        let config = parse(&text).unwrap_or_else(|e| panic!("{raw:?}: {text:?}: {e}"));
        assert_eq!(config.theme.as_deref(), Some(raw), "{text:?}");
    }
}
