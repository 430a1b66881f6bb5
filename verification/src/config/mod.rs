//! The settings file, and how it meets the command line.
//!
//! What was typed beats what the file says, and what the file says beats the
//! built-in defaults. A file that cannot be used never keeps the program from
//! starting: it leads to a warning, and the layer below applies.
use vstd::prelude::*;
use vstd::utf8;

pub mod laws;
pub mod reading;
pub mod rewrite;
pub mod rewrite_laws;
pub mod save;

use crate::content::{PreviewOptions, DEFAULT_LINES};
use crate::hotkey::{self, parse, HotKey, ParseError, Refusal, DEFAULT_SPEC};
use crate::path::{self, FilePath, PathView};
use crate::state::{self, OnClose};
use crate::style::{self, Theme};
use crate::text::{
    self, chars_of, copy_text, debug, push_chars, push_decimal, push_str, string_of,
    without_trailing_space,
};

verus! {

/// The name of the file in the configuration directory.
pub const FILE: &'static str = "gui.toml";

/// Whether the tray icon is shown where nothing says otherwise.
pub const DEFAULT_TRAY: bool = true;

/// Whether a newer version is looked for where nothing says otherwise.
pub const DEFAULT_UPDATES: bool = true;

// ---------------------------------------------------------------------------
// The layers
// ---------------------------------------------------------------------------
/// The settings file. Every setting may be missing.
#[derive(Debug, PartialEq, Eq)]
pub struct Config {
    /// The global hotkey.
    pub hotkey: Option<String>,
    /// Whether to show the tray icon.
    pub tray: Option<bool>,
    /// Whether to look for a newer version.
    pub updates: Option<bool>,
    /// How many lines of text to preview.
    pub lines: Option<usize>,
    /// Whether to wrap around at the ends of a directory.
    pub wrap: Option<bool>,
    /// The theme, as it is written.
    pub theme: Option<String>,
    /// What closing the window does, as it is written.
    pub on_close: Option<String>,
}

/// A [`Config`], by the text in it.
pub struct ConfigView {
    pub hotkey: Option<Seq<char>>,
    pub tray: Option<bool>,
    pub updates: Option<bool>,
    pub lines: Option<usize>,
    pub wrap: Option<bool>,
    pub theme: Option<Seq<char>>,
    pub on_close: Option<Seq<char>>,
}

impl View for Config {
    type V = ConfigView;

    open spec fn view(&self) -> ConfigView {
        ConfigView {
            hotkey: text::opt_text(self.hotkey),
            tray: self.tray,
            updates: self.updates,
            lines: self.lines,
            wrap: self.wrap,
            theme: text::opt_text(self.theme),
            on_close: text::opt_text(self.on_close),
        }
    }
}

impl ConfigView {
    /// A file that says nothing.
    pub open spec fn empty() -> ConfigView {
        ConfigView {
            hotkey: None,
            tray: None,
            updates: None,
            lines: None,
            wrap: None,
            theme: None,
            on_close: None,
        }
    }
}

impl Default for Config {
    fn default() -> (r: Config)
        ensures
            r@ == ConfigView::empty(),
    {
        Config {
            hotkey: None,
            tray: None,
            updates: None,
            lines: None,
            wrap: None,
            theme: None,
            on_close: None,
        }
    }
}

/// What the user typed on the command line; `None` is what was not typed.
#[derive(Debug, PartialEq, Eq)]
pub struct Overrides {
    /// `--hotkey`.
    pub hotkey: Option<String>,
    /// `--no-hotkey`.
    pub no_hotkey: bool,
    /// `--tray`.
    pub tray: Option<bool>,
    /// `--no-update-check`.
    pub updates: Option<bool>,
    /// `--lines`.
    pub lines: Option<usize>,
    /// `--wrap`.
    pub wrap: Option<bool>,
    /// `--theme`.
    pub theme: Option<Theme>,
}

/// An [`Overrides`], by the text in it.
pub struct OverridesView {
    pub hotkey: Option<Seq<char>>,
    pub no_hotkey: bool,
    pub tray: Option<bool>,
    pub updates: Option<bool>,
    pub lines: Option<usize>,
    pub wrap: Option<bool>,
    pub theme: Option<Theme>,
}

impl View for Overrides {
    type V = OverridesView;

    open spec fn view(&self) -> OverridesView {
        OverridesView {
            hotkey: text::opt_text(self.hotkey),
            no_hotkey: self.no_hotkey,
            tray: self.tray,
            updates: self.updates,
            lines: self.lines,
            wrap: self.wrap,
            theme: self.theme,
        }
    }
}

impl OverridesView {
    /// Nothing was typed.
    pub open spec fn empty() -> OverridesView {
        OverridesView {
            hotkey: None,
            no_hotkey: false,
            tray: None,
            updates: None,
            lines: None,
            wrap: None,
            theme: None,
        }
    }
}

impl Default for Overrides {
    fn default() -> (r: Overrides)
        ensures
            r@ == OverridesView::empty(),
    {
        Overrides {
            hotkey: None,
            no_hotkey: false,
            tray: None,
            updates: None,
            lines: None,
            wrap: None,
            theme: None,
        }
    }
}

/// Everything the program needs to know, with the layers merged.
#[derive(Debug, PartialEq, Eq)]
pub struct Settings {
    /// The hotkey to grab, or none.
    pub hotkey: Option<String>,
    /// Whether to show the tray icon.
    pub tray: bool,
    /// How many lines of text to preview.
    pub lines: usize,
    /// Whether to wrap around at the ends of a directory.
    pub wrap: bool,
    /// The theme to paint in.
    pub theme: Theme,
    /// Whether to look for a newer version.
    pub updates: bool,
    /// What closing the window does.
    pub on_close: OnClose,
}

/// A [`Settings`], by the text in it.
pub struct SettingsView {
    pub hotkey: Option<Seq<char>>,
    pub tray: bool,
    pub lines: usize,
    pub wrap: bool,
    pub theme: Theme,
    pub updates: bool,
    pub on_close: OnClose,
}

impl View for Settings {
    type V = SettingsView;

    open spec fn view(&self) -> SettingsView {
        SettingsView {
            hotkey: text::opt_text(self.hotkey),
            tray: self.tray,
            lines: self.lines,
            wrap: self.wrap,
            theme: self.theme,
            updates: self.updates,
            on_close: self.on_close,
        }
    }
}

// ---------------------------------------------------------------------------
// Values that cannot be used
// ---------------------------------------------------------------------------
impl ConfigView {
    /// The hotkey cannot be read.
    pub open spec fn bad_hotkey(self) -> bool {
        self.hotkey is Some && hotkey::parsed(self.hotkey->0) is Err
    }

    /// There is no such theme.
    pub open spec fn bad_theme(self) -> bool {
        self.theme is Some && style::theme_named(self.theme->0) is None
    }

    /// There is no such answer to the close question.
    pub open spec fn bad_on_close(self) -> bool {
        self.on_close is Some && state::on_close_named(self.on_close->0) is None
    }

    /// Every preview would be empty.
    pub open spec fn bad_lines(self) -> bool {
        self.lines == Some(0usize)
    }

    /// The file without what cannot be used.
    pub open spec fn usable(self) -> ConfigView {
        ConfigView {
            hotkey: if self.bad_hotkey() {
                None
            } else {
                self.hotkey
            },
            theme: if self.bad_theme() {
                None
            } else {
                self.theme
            },
            on_close: if self.bad_on_close() {
                None
            } else {
                self.on_close
            },
            lines: if self.bad_lines() {
                None
            } else {
                self.lines
            },
            ..self
        }
    }

    /// What the user is told of what cannot be used: one warning each.
    pub open spec fn complaints(self) -> Seq<Seq<char>> {
        let none = Seq::<Seq<char>>::empty();
        (if self.bad_hotkey() {
            seq![hotkey_warning(self.hotkey->0, hotkey::parsed(self.hotkey->0)->Err_0)]
        } else {
            none
        }) + (if self.bad_theme() {
            seq![choice_warning("theme"@, self.theme->0, "dark, light, system"@, "system"@)]
        } else {
            none
        }) + (if self.bad_on_close() {
            seq![choice_warning("on_close"@, self.on_close->0, "ask, tray, quit"@, "ask"@)]
        } else {
            none
        }) + (if self.bad_lines() {
            seq![lines_warning()]
        } else {
            none
        })
    }
}

/// The warning for a hotkey that cannot be read.
pub open spec fn hotkey_warning(spec: Seq<char>, why: Refusal) -> Seq<char> {
    "warning: invalid hotkey "@ + text::debug_text(spec) + ": "@ + why.told() + "\nwarning: using "@
        + text::debug_text(DEFAULT_SPEC@) + " instead"@
}

/// The warning for a setting that is none of its choices.
pub open spec fn choice_warning(
    key: Seq<char>,
    name: Seq<char>,
    options: Seq<char>,
    default: Seq<char>,
) -> Seq<char> {
    "warning: unknown "@ + key + " "@ + text::debug_text(name) + " (expected "@ + options + "); using "@
        + text::debug_text(default) + " instead"@
}

/// The warning for a limit of no lines.
pub open spec fn lines_warning() -> Seq<char> {
    "warning: lines = 0 would render every text preview empty; using "@ + text::decimal(
        DEFAULT_LINES as nat,
    ) + " instead"@
}

fn warn_hotkey(spec: &str, why: &ParseError) -> (r: String)
    ensures
        r@ == hotkey_warning(spec@, why@),
{
    let mut out = chars_of("warning: invalid hotkey ");
    let shown = debug(spec);
    push_str(&mut out, shown.as_str());
    push_str(&mut out, ": ");
    let told = why.message();
    push_str(&mut out, told.as_str());
    push_str(&mut out, "\nwarning: using ");
    let default = debug(DEFAULT_SPEC);
    push_str(&mut out, default.as_str());
    push_str(&mut out, " instead");
    string_of(out.as_slice())
}

fn warn_choice(key: &str, name: &str, options: &str, default: &str) -> (r: String)
    ensures
        r@ == choice_warning(key@, name@, options@, default@),
{
    let mut out = chars_of("warning: unknown ");
    push_str(&mut out, key);
    push_str(&mut out, " ");
    let shown = debug(name);
    push_str(&mut out, shown.as_str());
    push_str(&mut out, " (expected ");
    push_str(&mut out, options);
    push_str(&mut out, "); using ");
    let default = debug(default);
    push_str(&mut out, default.as_str());
    push_str(&mut out, " instead");
    string_of(out.as_slice())
}

fn warn_lines() -> (r: String)
    ensures
        r@ == lines_warning(),
{
    let mut out = chars_of("warning: lines = 0 would render every text preview empty; using ");
    push_decimal(&mut out, DEFAULT_LINES as u64);
    push_str(&mut out, " instead");
    string_of(out.as_slice())
}

/// Drops what the file may say but the program cannot use, and returns one
/// warning for each. What is dropped behaves as if it had not been written.
pub fn validate(config: &mut Config) -> (r: Vec<String>)
    ensures
        final(config)@ == old(config)@.usable(),
        text::texts(r@) == old(config)@.complaints(),
{
    let mut warnings: Vec<String> = Vec::new();
    let ghost before = config@;
    let ghost mut told: Seq<Seq<char>> = Seq::empty();

    let refused = match &config.hotkey {
        Some(spec) => match parse(spec.as_str()) {
            Ok(_) => None,
            Err(why) => Some(warn_hotkey(spec.as_str(), &why)),
        },
        None => None,
    };
    match refused {
        Some(w) => {
            proof {
                told = told.push(w@);
            }
            warnings.push(w);
            config.hotkey = None;
        },
        None => {},
    }
    assert(text::texts(warnings@) =~= told);

    let refused = match &config.theme {
        Some(name) => match Theme::parse(name.as_str()) {
            Some(_) => None,
            None => Some(warn_choice("theme", name.as_str(), "dark, light, system", "system")),
        },
        None => None,
    };
    match refused {
        Some(w) => {
            proof {
                told = told.push(w@);
            }
            warnings.push(w);
            config.theme = None;
        },
        None => {},
    }
    assert(text::texts(warnings@) =~= told);

    let refused = match &config.on_close {
        Some(name) => match OnClose::parse(name.as_str()) {
            Some(_) => None,
            None => Some(warn_choice("on_close", name.as_str(), "ask, tray, quit", "ask")),
        },
        None => None,
    };
    match refused {
        Some(w) => {
            proof {
                told = told.push(w@);
            }
            warnings.push(w);
            config.on_close = None;
        },
        None => {},
    }
    assert(text::texts(warnings@) =~= told);

    let no_lines = match config.lines {
        Some(n) => n == 0,
        None => false,
    };
    if no_lines {
        let w = warn_lines();
        proof {
            told = told.push(w@);
        }
        warnings.push(w);
        config.lines = None;
    }
    assert(text::texts(warnings@) =~= told);
    assert(told =~= before.complaints());
    warnings
}

// ---------------------------------------------------------------------------
// Merging the layers
// ---------------------------------------------------------------------------
/// The first of two layers that says something; `default` where neither does.
pub open spec fn layered<T>(top: Option<T>, below: Option<T>, default: T) -> T {
    match (top, below) {
        (Some(v), _) => v,
        (None, Some(v)) => v,
        (None, None) => default,
    }
}

/// What holds once the layers are merged.
pub open spec fn resolved(cli: OverridesView, cfg: ConfigView) -> SettingsView {
    SettingsView {
        hotkey: if cli.no_hotkey {
            None
        } else {
            Some(layered(cli.hotkey, cfg.hotkey, DEFAULT_SPEC@))
        },
        tray: layered(cli.tray, cfg.tray, DEFAULT_TRAY),
        updates: layered(cli.updates, cfg.updates, DEFAULT_UPDATES),
        lines: layered(cli.lines, cfg.lines, DEFAULT_LINES),
        wrap: layered(cli.wrap, cfg.wrap, false),
        theme: layered(
            cli.theme,
            match cfg.theme {
                Some(name) => style::theme_named(name),
                None => None,
            },
            Theme::System,
        ),
        on_close: layered(
            None,
            match cfg.on_close {
                Some(name) => state::on_close_named(name),
                None => None,
            },
            OnClose::Ask,
        ),
    }
}

fn layer<T: Copy>(top: Option<T>, below: Option<T>, default: T) -> (r: T)
    ensures
        r == layered(top, below, default),
{
    match top {
        Some(v) => v,
        None => match below {
            Some(v) => v,
            None => default,
        },
    }
}

/// Merges the layers: the command line, then the file, then the defaults.
pub fn resolve(cli: &Overrides, cfg: &Config) -> (r: Settings)
    ensures
        r@ == resolved(cli@, cfg@),
{
    let hotkey = if cli.no_hotkey {
        None
    } else {
        match copy_text(&cli.hotkey) {
            Some(spec) => Some(spec),
            None => match copy_text(&cfg.hotkey) {
                Some(spec) => Some(spec),
                None => Some(DEFAULT_SPEC.to_owned()),
            },
        }
    };
    let theme = match &cfg.theme {
        Some(name) => Theme::parse(name.as_str()),
        None => None,
    };
    let on_close = match &cfg.on_close {
        Some(name) => OnClose::parse(name.as_str()),
        None => None,
    };
    Settings {
        hotkey,
        tray: layer(cli.tray, cfg.tray, DEFAULT_TRAY),
        updates: layer(cli.updates, cfg.updates, DEFAULT_UPDATES),
        lines: layer(cli.lines, cfg.lines, DEFAULT_LINES),
        wrap: layer(cli.wrap, cfg.wrap, false),
        theme: layer(cli.theme, theme, Theme::System),
        on_close: layer(None, on_close, OnClose::Ask),
    }
}

impl Default for Settings {
    fn default() -> (r: Settings)
        ensures
            r@ == resolved(OverridesView::empty(), ConfigView::empty()),
    {
        resolve(&Overrides::default(), &Config::default())
    }
}

impl Settings {
    /// What a preview is limited to.
    pub fn preview_options(&self) -> (r: PreviewOptions)
        ensures
            r.max_lines == self.lines,
            r.max_bytes is None,
    {
        PreviewOptions { max_lines: self.lines, max_bytes: None }
    }

    /// The hotkey, read: with it the text it was read from, which is what menus
    /// show.
    pub fn binding(&self) -> (r: Result<Option<(String, HotKey)>, ParseError>)
        ensures
            match (self@.hotkey, r) {
                (None, Ok(None)) => true,
                (Some(spec), Ok(Some(bound))) => bound.0@ == spec && hotkey::parsed(spec) == Ok::<
                    HotKey,
                    Refusal,
                >(bound.1),
                (Some(spec), Err(e)) => hotkey::parsed(spec) == Err::<HotKey, Refusal>(e@),
                _ => false,
            },
    {
        match &self.hotkey {
            None => Ok(None),
            Some(spec) => match parse(spec.as_str()) {
                Ok(hotkey) => Ok(Some((spec.clone(), hotkey))),
                Err(e) => Err(e),
            },
        }
    }
}

// ---------------------------------------------------------------------------
// Where the file is
// ---------------------------------------------------------------------------
/// Which platform's conventions hold.
#[derive(Debug, Clone, Copy, PartialEq, Eq, Structural)]
pub enum Platform {
    Unix,
    Windows,
}

/// Reads `std::path::MAIN_SEPARATOR`, the separator of path components on the
/// platform the program was built for; nothing is claimed of which it is.
#[verifier::external_body]
fn main_separator() -> (c: char) {
    std::path::MAIN_SEPARATOR
}

impl Platform {
    /// The platform whose paths are written with this separator.
    pub open spec fn of_separator(c: char) -> Platform {
        if c == '\\' {
            Platform::Windows
        } else {
            Platform::Unix
        }
    }

    /// The platform whose paths are written with this separator.
    pub fn with_separator(c: char) -> (r: Platform)
        ensures
            r == Platform::of_separator(c),
    {
        if c == '\\' {
            Platform::Windows
        } else {
            Platform::Unix
        }
    }

    /// The platform that the program was built for.
    pub fn current() -> (r: Platform)
        ensures
            exists|c: char| r == #[trigger] Platform::of_separator(c),
    {
        let c = main_separator();
        Platform::with_separator(c)
    }
}

/// Whether the bytes of a path are those of an absolute one on a platform: on
/// Windows, where they start with two backslashes, or with a drive letter, a colon and
/// a separator.
pub open spec fn absolute_on(platform: Platform, b: Seq<u8>) -> bool {
    match platform {
        Platform::Unix => b.len() >= 1 && b[0] == path::SLASH,
        Platform::Windows => {
            ||| b.len() >= 2 && b[0] == path::BACKSLASH && b[1] == path::BACKSLASH
            ||| path::drive_at(b, 0) && b.len() >= 3 && path::is_sep(path::Seps::Either, b[2])
        },
    }
}

/// Whether a path is absolute on `platform`, whatever the program runs on.
pub fn is_absolute_on(platform: Platform, path: &FilePath) -> (r: bool)
    ensures
        r == absolute_on(platform, path@.bytes),
{
    let b = path.as_bytes();
    match platform {
        Platform::Unix => b.len() >= 1 && b[0] == path::SLASH,
        Platform::Windows => {
            (b.len() >= 2 && b[0] == 0x5c && b[1] == 0x5c) || (b.len() >= 3 && ((0x41 <= b[0]
                && b[0] <= 0x5a) || (0x61 <= b[0] && b[0] <= 0x7a)) && b[1] == 0x3a && (b[2] == 0x5c
                || b[2] == 0x2f))
        },
    }
}

/// The value of a variable, where it is set and not empty.
pub open spec fn nonempty(v: Option<PathView>) -> Option<PathView> {
    match v {
        Some(b) => if b.len() > 0 {
            Some(b)
        } else {
            None
        },
        None => None,
    }
}

/// The path of the file, out of the variables that decide it.
pub open spec fn config_file(
    platform: Platform,
    xdg_config_home: Option<PathView>,
    home: Option<PathView>,
    appdata: Option<PathView>,
) -> Option<PathView> {
    let dir = match platform {
        Platform::Unix => match nonempty(xdg_config_home) {
            Some(xdg) if absolute_on(platform, xdg.bytes) => Some(xdg),
            _ => match nonempty(home) {
                Some(home) => Some(path::joined(home, utf8::encode_utf8(".config"@))),
                None => None,
            },
        },
        Platform::Windows => nonempty(appdata),
    };
    match dir {
        Some(dir) => Some(path::joined(path::joined(dir, utf8::encode_utf8("sekio"@)), utf8::encode_utf8(FILE@))),
        None => None,
    }
}

/// The path of the file where none is named, out of the variables that decide
/// it: `$XDG_CONFIG_HOME` where it is absolute, else `$HOME`; on Windows
/// `%APPDATA%`. A variable that is empty counts as unset.
pub fn default_config_path(
    platform: Platform,
    xdg_config_home: Option<FilePath>,
    home: Option<FilePath>,
    appdata: Option<FilePath>,
) -> (r: Option<FilePath>)
    ensures
        path::opt_path(r) == config_file(
            platform,
            path::opt_path(xdg_config_home),
            path::opt_path(home),
            path::opt_path(appdata),
        ),
{
    let dir = match platform {
        Platform::Unix => {
            let xdg = match xdg_config_home {
                Some(dir) => if !dir.is_empty() && is_absolute_on(Platform::Unix, &dir) {
                    Some(dir)
                } else {
                    None
                },
                None => None,
            };
            match xdg {
                Some(dir) => Some(dir),
                None => match home {
                    Some(dir) => if !dir.is_empty() {
                        Some(dir.join_str(".config"))
                    } else {
                        None
                    },
                    None => None,
                },
            }
        },
        Platform::Windows => match appdata {
            Some(dir) => if !dir.is_empty() {
                Some(dir)
            } else {
                None
            },
            None => None,
        },
    };
    match dir {
        Some(dir) => Some(dir.join_str("sekio").join_str(FILE)),
        None => None,
    }
}

/// Which file to read, if any.
#[derive(Debug, PartialEq)]
pub enum Location {
    /// None at all.
    Disabled,
    /// The one the user named: where it is missing, that is worth saying.
    Explicit(FilePath),
    /// The usual one, where there is one. That it is missing is normal.
    Default(Option<FilePath>),
}

impl Location {
    /// Which file to read: none where `no_config`, else the one that was named,
    /// else the usual one.
    pub fn resolve(explicit: Option<FilePath>, no_config: bool, usual: Option<FilePath>) -> (r:
        Location)
        ensures
            no_config ==> r is Disabled,
            !no_config && explicit is Some ==> r == Location::Explicit(explicit->0),
            !no_config && explicit is None ==> r == Location::Default(usual),
    {
        if no_config {
            return Location::Disabled;
        }
        match explicit {
            Some(path) => Location::Explicit(path),
            None => Location::Default(usual),
        }
    }

    /// The file that this names.
    pub open spec fn target(&self) -> Option<FilePath> {
        match *self {
            Location::Disabled => None,
            Location::Explicit(path) => Some(path),
            Location::Default(path) => path,
        }
    }

    /// Where a setting that changes while the program runs is written; `None`
    /// where it cannot be kept.
    pub fn write_target(&self) -> (r: Option<&FilePath>)
        ensures
            r is Some <==> self.target() is Some,
            r is Some ==> *r->0 == self.target()->0,
    {
        match self {
            Location::Disabled => None,
            Location::Explicit(path) => Some(path),
            Location::Default(path) => path.as_ref(),
        }
    }
}

// ---------------------------------------------------------------------------
// Reading the file
// ---------------------------------------------------------------------------
/// What reading the file came to.
#[derive(Debug)]
pub enum Reading {
    /// It was read and understood.
    Parsed(Config),
    /// It was read and not understood, and why.
    Malformed(String),
    /// There is no such file; the system's words for that.
    Missing(String),
    /// It could not be read, and why.
    Unreadable(String),
}

/// The settings that were read, and what went wrong on the way.
#[derive(Debug, PartialEq, Eq)]
pub struct Loaded {
    pub config: Config,
    pub warnings: Vec<String>,
}

/// What the user is told of a file that could not be used.
pub open spec fn degraded_warning(path: PathView, problem: Seq<char>) -> Seq<char> {
    "warning: "@ + text::lossy_text(path.bytes) + ": "@ + text::trim_end(problem)
        + "\nwarning: continuing with built-in defaults"@
}

/// The settings and the warnings that a reading leads to. A file that is missing
/// is worth a warning only where it was asked for.
pub open spec fn loaded(path: PathView, required: bool, reading: Reading) -> (
    ConfigView,
    Seq<Seq<char>>,
) {
    match reading {
        Reading::Parsed(config) => (config@.usable(), config@.complaints()),
        Reading::Malformed(why) => (ConfigView::empty(), seq![degraded_warning(path, why@)]),
        Reading::Missing(why) => if required {
            (ConfigView::empty(), seq![degraded_warning(path, why@)])
        } else {
            (ConfigView::empty(), Seq::empty())
        },
        Reading::Unreadable(why) => (ConfigView::empty(), seq![degraded_warning(path, why@)]),
    }
}

fn degraded(path: &FilePath, problem: &str) -> (r: Loaded)
    ensures
        r.config@ == ConfigView::empty(),
        text::texts(r.warnings@) == seq![degraded_warning(path@, problem@)],
{
    let mut out = chars_of("warning: ");
    let shown = path.display();
    push_str(&mut out, shown.as_str());
    push_str(&mut out, ": ");
    let problem = chars_of(problem);
    push_chars(&mut out, without_trailing_space(problem.as_slice()));
    push_str(&mut out, "\nwarning: continuing with built-in defaults");
    let mut warnings: Vec<String> = Vec::new();
    warnings.push(string_of(out.as_slice()));
    assert(text::texts(warnings@) =~= seq![out@]);
    Loaded { config: Config::default(), warnings }
}

/// The settings that a reading of the file at `path` leads to. `required` is
/// whether the user named the file.
pub fn load_file(path: &FilePath, required: bool, reading: Reading) -> (r: Loaded)
    ensures
        r.config@ == loaded(path@, required, reading).0,
        text::texts(r.warnings@) == loaded(path@, required, reading).1,
{
    match reading {
        Reading::Parsed(config) => {
            let mut config = config;
            let warnings = validate(&mut config);
            Loaded { config, warnings }
        },
        Reading::Malformed(why) => degraded(path, why.as_str()),
        Reading::Missing(why) => if required {
            degraded(path, why.as_str())
        } else {
            let warnings: Vec<String> = Vec::new();
            assert(text::texts(warnings@) =~= Seq::empty());
            Loaded { config: Config::default(), warnings }
        },
        Reading::Unreadable(why) => degraded(path, why.as_str()),
    }
}

/// The settings of `location`: `read` reads the file, and is called only where
/// there is one to read.
pub fn load<F: FnOnce(&FilePath) -> Reading>(location: &Location, read: F) -> (r: Loaded)
    requires
        location.target() is Some ==> call_requires(read, (&location.target()->0,)),
    ensures
        location.target() is None ==> r.config@ == ConfigView::empty() && text::texts(r.warnings@)
            == Seq::<Seq<char>>::empty(),
        location.target() is Some ==> exists|reading: Reading|
            #![trigger call_ensures(read, (&location.target()->0,), reading)]
            call_ensures(read, (&location.target()->0,), reading) && r.config@ == loaded(
                location.target()->0@,
                *location is Explicit,
                reading,
            ).0 && text::texts(r.warnings@) == loaded(
                location.target()->0@,
                *location is Explicit,
                reading,
            ).1,
{
    match location {
        Location::Explicit(path) => {
            let reading = read(path);
            load_file(path, true, reading)
        },
        Location::Default(Some(path)) => {
            let reading = read(path);
            load_file(path, false, reading)
        },
        _ => {
            let warnings: Vec<String> = Vec::new();
            assert(text::texts(warnings@) =~= Seq::empty());
            Loaded { config: Config::default(), warnings }
        },
    }
}

} // verus!
