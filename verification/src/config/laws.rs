//! What the layers of settings promise together.
use vstd::prelude::*;
use vstd::utf8;

use crate::config::save::{self, Existing, SaveError};
use crate::config::{self, ConfigView, OverridesView, Platform, Reading};
use crate::content::DEFAULT_LINES;
use crate::hotkey::laws;
use crate::hotkey::{self, DEFAULT_SPEC};
use crate::path::{self, PathView};
use crate::state::{self, OnClose};
use crate::style::{self, Theme};
use crate::text;

verus! {

/// What is typed beats what the file says.
pub proof fn law_what_is_typed_wins(cli: OverridesView, cfg: ConfigView)
    ensures
        cli.no_hotkey ==> config::resolved(cli, cfg).hotkey is None,
        !cli.no_hotkey && cli.hotkey is Some ==> config::resolved(cli, cfg).hotkey == cli.hotkey,
        cli.tray is Some ==> config::resolved(cli, cfg).tray == cli.tray->0,
        cli.updates is Some ==> config::resolved(cli, cfg).updates == cli.updates->0,
        cli.lines is Some ==> config::resolved(cli, cfg).lines == cli.lines->0,
        cli.wrap is Some ==> config::resolved(cli, cfg).wrap == cli.wrap->0,
        cli.theme is Some ==> config::resolved(cli, cfg).theme == cli.theme->0,
{
}

/// What is not typed leaves the file alone, and what neither says is the
/// default.
pub proof fn law_the_file_beats_the_defaults(cli: OverridesView, cfg: ConfigView)
    ensures
        !cli.no_hotkey && cli.hotkey is None ==> config::resolved(cli, cfg).hotkey == Some(
            if cfg.hotkey is Some {
                cfg.hotkey->0
            } else {
                DEFAULT_SPEC@
            },
        ),
        cli.tray is None ==> config::resolved(cli, cfg).tray == (cfg.tray != Some(false)),
        cli.updates is None ==> config::resolved(cli, cfg).updates == (cfg.updates != Some(false)),
        cli.wrap is None ==> config::resolved(cli, cfg).wrap == (cfg.wrap == Some(true)),
        cli.lines is None ==> config::resolved(cli, cfg).lines == (if cfg.lines is Some {
            cfg.lines->0
        } else {
            DEFAULT_LINES
        }),
        cli.theme is None && cfg.theme is None ==> config::resolved(cli, cfg).theme == Theme::System,
        cfg.on_close is None ==> config::resolved(cli, cfg).on_close == OnClose::Ask,
{
}

/// Dropping what cannot be used once is enough: nothing is left to complain of.
pub proof fn law_a_checked_file_has_nothing_to_complain_of(cfg: ConfigView)
    ensures
        cfg.usable().usable() == cfg.usable(),
        cfg.usable().complaints() == Seq::<Seq<char>>::empty(),
        cfg.complaints().len() == (if cfg.bad_hotkey() {
            1int
        } else {
            0
        }) + (if cfg.bad_theme() {
            1int
        } else {
            0
        }) + (if cfg.bad_on_close() {
            1int
        } else {
            0
        }) + (if cfg.bad_lines() {
            1int
        } else {
            0
        }),
        cfg.complaints().len() == 0 ==> cfg.usable() == cfg,
{
    assert(cfg.usable().complaints() =~= Seq::<Seq<char>>::empty());
}

/// A value in the file that cannot be used behaves like one that is not there:
/// the layer below applies.
pub proof fn law_an_unusable_value_falls_through(cli: OverridesView, cfg: ConfigView)
    ensures
        cfg.bad_hotkey() ==> config::resolved(cli, cfg.usable()).hotkey == config::resolved(
            cli,
            ConfigView { hotkey: None, ..cfg },
        ).hotkey,
        cfg.bad_theme() ==> config::resolved(cli, cfg.usable()).theme == config::resolved(
            cli,
            ConfigView { theme: None, ..cfg },
        ).theme,
        cfg.bad_on_close() ==> config::resolved(cli, cfg.usable()).on_close == OnClose::Ask,
        cfg.bad_lines() ==> config::resolved(cli, cfg.usable()).lines == config::resolved(
            cli,
            ConfigView { lines: None, ..cfg },
        ).lines,
{
}

/// Only a hotkey that was typed can fail to bind: one from a checked file, and
/// the default, can always be read.
pub proof fn law_only_a_typed_hotkey_can_fail(cli: OverridesView, cfg: ConfigView)
    requires
        cli.hotkey is None,
    ensures
        config::resolved(cli, cfg.usable()).hotkey is Some ==> hotkey::parsed(
            config::resolved(cli, cfg.usable()).hotkey->0,
        ) is Ok,
{
    laws::law_the_default_can_be_bound();
}

/// A theme, and an answer to the close question, that the file gives by name hold, unless
/// another theme was typed; white space and case aside.
pub proof fn law_what_the_file_names_holds(
    cli: OverridesView,
    cfg: ConfigView,
    theme: Theme,
    on_close: OnClose,
)
    ensures
        cli.theme is None && cfg.theme is Some && text::folded(cfg.theme->0) == theme.name()
            ==> config::resolved(cli, cfg).theme == theme,
        cfg.on_close is Some && text::folded(cfg.on_close->0) == on_close.name()
            ==> config::resolved(cli, cfg).on_close == on_close,
        config::resolved(OverridesView::empty(), ConfigView::empty()).hotkey == Some(
            "Ctrl+Shift+Space"@,
        ),
        config::resolved(OverridesView::empty(), ConfigView::empty()).lines == 500,
{
    if cfg.theme is Some {
        style::law_the_words_for_themes(cfg.theme->0);
    }
    if cfg.on_close is Some {
        state::law_the_words_for_closing(cfg.on_close->0);
    }
}

/// Of what a file says only that is dropped which cannot be used: a hotkey that cannot be
/// read, a theme or an answer that there is not, and a limit of no lines. All else stays
/// as it was.
pub proof fn law_only_what_cannot_be_used_is_dropped(cfg: ConfigView)
    ensures
        ({
            let u = cfg.usable();
            &&& u.tray == cfg.tray && u.updates == cfg.updates && u.wrap == cfg.wrap
            &&& cfg.hotkey is Some && hotkey::parsed(cfg.hotkey->0) is Ok ==> u.hotkey == cfg.hotkey
            &&& u.hotkey is Some ==> hotkey::parsed(u.hotkey->0) is Ok
            &&& cfg.theme is Some && style::theme_named(cfg.theme->0) is Some ==> u.theme
                == cfg.theme
            &&& u.theme is Some ==> style::theme_named(u.theme->0) is Some
            &&& cfg.on_close is Some && state::on_close_named(cfg.on_close->0) is Some ==> u.on_close
                == cfg.on_close
            &&& u.on_close is Some ==> state::on_close_named(u.on_close->0) is Some
            &&& cfg.lines is Some && cfg.lines->0 > 0 ==> u.lines == cfg.lines
            &&& u.lines is Some ==> u.lines->0 > 0
        }),
{
}

/// A path is absolute on Unix where it begins with a slash; on Windows where it begins
/// with two backslashes, or with a letter, a colon and a slash of either kind. Nothing
/// that follows changes that.
pub proof fn law_what_begins_an_absolute_path(b: Seq<u8>, more: Seq<u8>)
    ensures
        config::absolute_on(Platform::Unix, b) <==> b.len() > 0 && b[0] == 0x2f,
        config::absolute_on(Platform::Windows, b) <==> (b.len() > 1 && b[0] == 0x5c && b[1] == 0x5c)
            || (b.len() > 2 && (0x41 <= b[0] <= 0x5a || 0x61 <= b[0] <= 0x7a) && b[1] == 0x3a && (
        b[2] == 0x5c || b[2] == 0x2f)),
        config::absolute_on(Platform::Unix, b) ==> config::absolute_on(Platform::Unix, b + more),
        config::absolute_on(Platform::Windows, b) ==> config::absolute_on(
            Platform::Windows,
            b + more,
        ),
        config::absolute_on(Platform::Unix, b) == path::absolute(PathView::unix(b)),
{
}

/// Where the file is: below the directory that the platform's variable names; on Unix
/// below home where that variable is unset, empty or relative; and nowhere where nothing
/// useful is set.
pub proof fn law_where_the_file_is(xdg: Option<PathView>, home: Option<PathView>, appdata: Option<PathView>)
    ensures
        ({
            let f = |dir: PathView|
                Some(
                    path::joined(
                        path::joined(dir, utf8::encode_utf8("sekio"@)),
                        utf8::encode_utf8("gui.toml"@),
                    ),
                );
            let set = xdg is Some && xdg->0.bytes.len() > 0 && xdg->0.bytes[0] == 0x2f;
            let at = config::config_file(Platform::Unix, xdg, home, appdata);
            &&& set ==> at == f(xdg->0)
            &&& !set && home is Some && home->0.bytes.len() > 0 ==> at == f(
                path::joined(home->0, utf8::encode_utf8(".config"@)),
            )
            &&& !set && (home is None || home->0.bytes.len() == 0) ==> at is None
            &&& appdata is Some && appdata->0.bytes.len() > 0 ==> config::config_file(
                Platform::Windows,
                xdg,
                home,
                appdata,
            ) == f(appdata->0)
            &&& appdata is None || appdata->0.bytes.len() == 0 ==> config::config_file(
                Platform::Windows,
                xdg,
                home,
                appdata,
            ) is None
        }),
{
}

/// A file that was not understood or could not be read is not used at all, and the user
/// is told once, with the reason; one that is missing is worth a word only where it was
/// asked for.
pub proof fn law_a_file_that_cannot_be_used_is_told_of(path: PathView, required: bool, why: String)
    ensures
        config::loaded(path, required, Reading::Malformed(why)).0 == ConfigView::empty(),
        config::loaded(path, required, Reading::Malformed(why)).1.len() == 1,
        config::loaded(path, required, Reading::Unreadable(why)) == config::loaded(
            path,
            required,
            Reading::Malformed(why),
        ),
        config::loaded(path, true, Reading::Missing(why)) == config::loaded(
            path,
            required,
            Reading::Malformed(why),
        ),
        config::loaded(path, false, Reading::Missing(why)).0 == ConfigView::empty(),
        config::loaded(path, false, Reading::Missing(why)).1.len() == 0,
        config::loaded(path, required, Reading::Malformed(why)).1[0] == "warning: "@
            + text::lossy_text(path.bytes) + ": "@ + text::trim_end(why@)
            + "\nwarning: continuing with built-in defaults"@,
{
}

/// Saving starts from the text of the file, or from nothing where there is none; from a
/// file that cannot be read it does not start.
pub proof fn law_an_unreadable_file_is_not_written_over(t: String)
    ensures
        save::start_text(Existing::Text(t)) == Ok::<Seq<char>, Seq<char>>(t@),
        save::start_text(Existing::Missing) == Ok::<Seq<char>, Seq<char>>(Seq::<char>::empty()),
        save::start_text(Existing::Unreadable(t)) == Err::<Seq<char>, Seq<char>>(t@),
{
}

/// Saving succeeds exactly where writing does; where it fails, the reason and the file are
/// told as they are.
pub proof fn law_saving_goes_by_what_writing_came_to(
    path: PathView,
    why: String,
    r: Result<(), SaveError>,
)
    ensures
        save::written(path, Ok(()), r) <==> r is Ok,
        save::written(path, Err(why), r) ==> r is Err && r->Err_0 is Io && r->Err_0->path@ == path
            && r->Err_0->reason@ == why@,
{
}

/// Where the file cannot be read saving fails, with the reason that reading gave; where it
/// succeeds something was written.
pub proof fn law_saving_needs_a_file_that_can_be_read<
    R: FnOnce() -> Existing,
    W: FnOnce(String) -> Result<(), String>,
>(
    path: PathView,
    key: Seq<char>,
    value: Seq<char>,
    read: R,
    write: W,
    r: Result<(), SaveError>,
)
    requires
        save::saved(path, key, value, read, write, r),
    ensures
        (forall|e: Existing| #[trigger] call_ensures(read, (), e) ==> e is Unreadable) ==> r is Err,
        r is Ok ==> exists|new: String, answer: Result<(), String>| #[trigger]
            call_ensures(write, (new,), answer) && answer is Ok,
{
}

/// A platform is known by the separator of its paths: only one writes a backslash.
pub proof fn law_a_backslash_means_windows(c: char)
    ensures
        Platform::of_separator(c) == Platform::Windows <==> c == '\\',
        Platform::of_separator(c) == Platform::Unix <==> c != '\\',
{
}

} // verus!
