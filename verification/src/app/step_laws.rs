//! What each key, click and answer is for: what it leads to, and what it leaves alone.
use vstd::prelude::*;
use vstd::utf8;

use super::layout;
use super::model::{AppView, BrowserView, CommandView, DialogView, Kind, SiblingsView};
use super::{Command, Keys, Outcome, Screen};
use crate::content::{ListEntry, PreviewContent};
use crate::path::{self, FilePath, PathView};
use crate::recent;
use crate::state::{self, Mode};
use crate::style::{Shade, Theme};

verus! {

// ---------------------------------------------------------------------------
// Keys
// ---------------------------------------------------------------------------
/// No key that does more than steer is down.
pub open spec fn only_steers(keys: Keys) -> bool {
    &&& !keys.quit && !keys.open && !keys.browse && !keys.escape && !keys.space
    &&& !keys.zoom_in && !keys.zoom_out && !keys.zoom_reset
}

/// None of the keys that steer is down.
pub open spec fn steers_nowhere(keys: Keys) -> bool {
    !keys.up && !keys.down && !keys.left && !keys.right && !keys.enter
}

proof fn lemma_steering(app: AppView, keys: Keys, answer: DialogView, start: PathView)
    requires
        only_steers(keys),
    ensures
        app.keyed(keys, answer, start).0 == app.steered(keys).0,
        app.keyed(keys, answer, start).1 == app.steered(keys).1,
{
    reveal(AppView::moved_by);
    let list = app.steered(keys).1;
    assert(app.moved_by(keys).1 =~= list);
    assert(app.keyed(keys, answer, start).1 =~= list);
}

/// In the browser Up leads to the row above and Down to the row below, and both stay
/// where there is no such row; nothing else changes, and nothing is to be done.
pub proof fn law_up_and_down_move_the_selection(
    app: AppView,
    keys: Keys,
    answer: DialogView,
    start: PathView,
)
    requires
        app.browser.wf(),
        app.browser.open,
        only_steers(keys),
        !keys.left && !keys.right && !keys.enter,
    ensures
        ({
            let next = app.keyed(keys, answer, start).0;
            let row = app.browser.place;
            let rows = app.browser.rows.len();
            &&& keys.up && !keys.down && row > 0 ==> next.browser.place == row - 1
            &&& keys.up && !keys.down && row == 0 ==> next.browser.place == 0
            &&& keys.down && !keys.up && row + 1 < rows ==> next.browser.place == row + 1
            &&& keys.down && !keys.up && row + 1 >= rows ==> next.browser.place == row
            &&& keys.up && keys.down && row > 0 ==> next.browser.place == row
            &&& !keys.up && !keys.down ==> next.browser.place == row
            &&& next.browser.at == app.browser.at
            &&& next.browser.rows == app.browser.rows
            &&& next.browser.open
            &&& next.path == app.path
            &&& next.screen == app.screen
            &&& app.keyed(keys, answer, start).1 == Seq::<CommandView>::empty()
        }),
{
    lemma_steering(app, keys, answer, start);
}

/// Up and then Down, or Down and then Up, lead back to the row, unless the first of
/// them was stopped by an end.
pub proof fn law_a_row_forth_and_back(app: AppView)
    requires
        app.browser.wf(),
    ensures
        app.browser.place > 0 ==> app.place_moved(-1).place_moved(1).browser.place
            == app.browser.place,
        app.browser.place + 1 < app.browser.rows.len() ==> app.place_moved(1).place_moved(
            -1,
        ).browser.place == app.browser.place,
{
}

/// In the browser Left leads to the directory above, where there is one: it is listed
/// anew, from its first row.
pub proof fn law_left_leads_up(app: AppView, keys: Keys, answer: DialogView, start: PathView)
    requires
        app.browser.open,
        only_steers(keys),
        keys.left && !keys.typing,
        !keys.up && !keys.down && !keys.right && !keys.enter,
    ensures
        match path::parent_of(app.browser.at) {
            Some(dir) if dir.bytes.len() > 0 => {
                let step = app.keyed(keys, answer, start);
                &&& step.0.browser.at == dir
                &&& step.0.browser.open && step.0.browser.waiting
                &&& step.0.browser.rows.len() == 0 && step.0.browser.place == 0
                &&& step.1.last() == (CommandView::List {
                    id: step.0.browse_tracker.last,
                    path: dir,
                })
            },
            _ => app.keyed(keys, answer, start) == app.unchanged(),
        },
{
    lemma_steering(app, keys, answer, start);
    assert(app.keyed(keys, answer, start).1 =~= app.steered(keys).1);
}

/// In the browser Right and Enter take the row under the selection: a directory is
/// listed in place of the one it is in, a file is opened, and where there is no row
/// nothing happens. What is taken is the entry of that name in that directory.
pub proof fn law_enter_takes_the_row(app: AppView, keys: Keys, answer: DialogView, start: PathView)
    requires
        app.browser.wf(),
        app.browser.open,
        only_steers(keys),
        keys.enter || keys.right && !keys.typing,
        !keys.up && !keys.down,
        !keys.left || keys.typing,
    ensures
        ({
            let step = app.keyed(keys, answer, start);
            let rows = app.browser.rows;
            let row = app.browser.place;
            let taken = path::joined(app.browser.at, utf8::encode_utf8(rows[row].name@));
            &&& rows.len() == 0 ==> step == app.unchanged()
            &&& rows.len() > 0 && rows[row].is_dir ==> {
                &&& step.0.browser.at == taken
                &&& step.0.browser.rows.len() == 0 && step.0.browser.place == 0
                &&& step.1.last() == (CommandView::List {
                    id: step.0.browse_tracker.last,
                    path: taken,
                })
            }
            &&& rows.len() > 0 && !rows[row].is_dir ==> step.0 == app && step.1 == seq![
                CommandView::Open(taken),
            ]
        }),
{
    lemma_steering(app, keys, answer, start);
    let none = Seq::<CommandView>::empty();
    let c = app.unchanged();
    let a = app.activated();
    assert(none + a.1 =~= a.1);
    assert(app.steered(keys).1 =~= a.1);
}

/// An arrow that a text box takes steers nothing: while something is typed, Left and
/// Right leave the browser alone.
pub proof fn law_arrows_in_a_text_box_steer_nothing(
    app: AppView,
    keys: Keys,
    answer: DialogView,
    start: PathView,
)
    requires
        app.browser.open,
        only_steers(keys),
        keys.typing,
        !keys.up && !keys.down && !keys.enter,
    ensures
        app.keyed(keys, answer, start).0 == app,
        app.keyed(keys, answer, start).1 == Seq::<CommandView>::empty(),
{
    lemma_steering(app, keys, answer, start);
}

/// Away from the browser Right and Down lead to the next file, Left and Up to the one
/// before; that file is asked for, and nothing happens at an end that is not wrapped
/// around.
pub proof fn law_arrows_lead_from_file_to_file(
    app: AppView,
    keys: Keys,
    answer: DialogView,
    start: PathView,
)
    requires
        app.wf(),
        app.siblings.index is Some,
        !app.browser.open,
        only_steers(keys),
    ensures
        ({
            let step = app.keyed(keys, answer, start);
            let files = app.siblings.files;
            let i = app.siblings.index->0 as int;
            let back = keys.left || keys.up;
            let on = !back && (keys.right || keys.down);
            &&& back && i > 0 ==> shows(step, files[i - 1]) && step.0.siblings.index == Some(
                (i - 1) as nat,
            )
            &&& on && i + 1 < files.len() ==> shows(step, files[i + 1]) && step.0.siblings.index
                == Some((i + 1) as nat)
            &&& back && i == 0 && !app.siblings.wraps ==> step == app.unchanged()
            &&& on && i + 1 == files.len() && !app.siblings.wraps ==> step == app.unchanged()
            &&& back && i == 0 && app.siblings.wraps && files.len() > 1 ==> shows(
                step,
                files.last(),
            )
            &&& on && i + 1 == files.len() && app.siblings.wraps && files.len() > 1 ==> shows(
                step,
                files[0],
            )
            &&& !back && !on ==> step == app.unchanged()
        }),
{
    lemma_steering(app, keys, answer, start);
    state::law_a_step_leads_to_the_next_place(
        app.siblings.files.len(),
        app.siblings.index->0,
        app.siblings.wraps,
    );
    let step = app.keyed(keys, answer, start);
    let back = app.navigated(-1);
    let on = app.navigated(1);
    assert(step.1 =~= app.steered(keys).1);
    lemma_asked_for(app, -1);
    lemma_asked_for(app, 1);
}

/// Whether a step leads to a path that is not there yet, and asks for its preview.
pub open spec fn shows(step: (AppView, Seq<CommandView>), path: PathView) -> bool {
    &&& step.0.path == path
    &&& step.0.screen is Loading
    &&& step.1.len() > 0
    &&& step.1.last() is Preview
    &&& step.1.last()->Preview_path == path
    &&& step.1.last()->Preview_id == step.0.tracker.last
    &&& step.0.tracker.current == Some(step.0.tracker.last)
}

proof fn lemma_asked_for(app: AppView, delta: int)
    ensures
        state::step_to(app.siblings.files.len(), app.siblings.index, app.siblings.wraps, delta)
            is Some ==> shows(
            app.navigated(delta),
            app.siblings.files[state::step_to(
                app.siblings.files.len(),
                app.siblings.index,
                app.siblings.wraps,
                delta,
            )->0 as int],
        ),
{
}

/// Escape backs out of one thing at a time: out of the search where there is one, else
/// out of the browser, else out of what is on screen.
pub proof fn law_escape_backs_out_of_one_thing(
    app: AppView,
    keys: Keys,
    answer: DialogView,
    start: PathView,
)
    requires
        keys.escape,
        !keys.quit && !keys.open && !keys.browse,
        steers_nowhere(keys),
        !keys.zoom_in && !keys.zoom_out && !keys.zoom_reset,
    ensures
        ({
            let step = app.keyed(keys, answer, start);
            &&& app.browser.open && keys.searching ==> step.0 == app && step.1 == seq![
                CommandView::ClearSearch,
            ]
            &&& app.browser.open && !keys.searching ==> step.0 == (AppView {
                browser: BrowserView { open: false, ..app.browser },
                ..app
            }) && step.1 == Seq::<CommandView>::empty()
            &&& !app.browser.open ==> step == app.dismissed()
        }),
{
    reveal(AppView::moved_by);
    let step = app.keyed(keys, answer, start);
    assert(step.1 =~= app.escaped(keys).1);
    if app.browser.open && keys.searching {
        assert(step.1 =~= seq![CommandView::ClearSearch]);
    } else if app.browser.open {
        assert(step.1 =~= Seq::<CommandView>::empty());
    }
}

/// Space dismisses what is on screen, and is a space where something is typed.
pub proof fn law_space_dismisses(app: AppView, keys: Keys, answer: DialogView, start: PathView)
    requires
        keys.space,
        !keys.escape && !keys.quit && !keys.open && !keys.browse,
        steers_nowhere(keys),
        !keys.zoom_in && !keys.zoom_out && !keys.zoom_reset,
    ensures
        !keys.typing ==> app.keyed(keys, answer, start) == app.dismissed(),
        keys.typing ==> app.keyed(keys, answer, start) == app.unchanged(),
{
    reveal(AppView::moved_by);
    let step = app.keyed(keys, answer, start);
    assert(step.1 =~= app.escaped(keys).1);
    if keys.typing {
        assert(step.1 =~= Seq::<CommandView>::empty());
    }
}

/// Dismissing closes a popup, hides a resident window and leads an application home;
/// whatever was under way for it is cancelled.
pub proof fn law_dismissing_goes_by_the_mode(app: AppView)
    ensures
        app.mode == Mode::Popup ==> app.dismissed().1.last() == CommandView::Close,
        app.mode == Mode::Daemon ==> app.dismissed().1.last() == CommandView::Visible(false)
            && !app.dismissed().0.visible && !app.dismissed().0.browser.open,
        app.mode == Mode::App && app.screen !is Home ==> app.dismissed().0.screen is Home
            && app.dismissed().1.contains(CommandView::Title("sekio"@)),
        app.mode == Mode::App && app.screen is Home ==> app.dismissed() == app.unchanged(),
        app.mode != Mode::App && app.tracker.current is Some ==> app.dismissed().1.contains(
            CommandView::Cancel(Kind::Preview, app.tracker.current->0),
        ),
        app.mode != Mode::App && app.browse_tracker.current is Some ==> app.dismissed().1.contains(
            CommandView::Cancel(Kind::Browse, app.browse_tracker.current->0),
        ),
        app.mode == Mode::App && app.screen !is Home && app.tracker.current is Some
            ==> app.dismissed().1.contains(
            CommandView::Cancel(Kind::Preview, app.tracker.current->0),
        ),
        app.mode != Mode::App ==> app.dismissed().0.tracker.current is None
            && app.dismissed().0.browse_tracker.current is None,
{
    let list = app.dismissed().1;
    let a = app.tracker.dropped(Kind::Preview);
    let b = app.browse_tracker.dropped(Kind::Browse);
    if app.tracker.current is Some && list.len() > 0 {
        assert(a[0] == CommandView::Cancel(Kind::Preview, app.tracker.current->0));
        assert(list[0] == a[0]);
    }
    if app.mode != Mode::App && app.browse_tracker.current is Some {
        assert(b[0] == CommandView::Cancel(Kind::Browse, app.browse_tracker.current->0));
        assert(list[a.len() as int] == b[0]);
    }
    if app.mode == Mode::App && app.screen !is Home {
        assert(list.last() == CommandView::Title("sekio"@));
    }
}

/// The key that quits ends a window that is no resident one, and does nothing else.
pub proof fn law_quit_ends_the_window(app: AppView, keys: Keys, answer: DialogView, start: PathView)
    requires
        keys.quit,
        app.mode != Mode::Daemon,
    ensures
        app.keyed(keys, answer, start).1.last() == CommandView::Close,
        app.keyed(keys, answer, start).0.tracker.current is None,
        app.keyed(keys, answer, start).0.browse_tracker.current is None,
        app.keyed(keys, answer, start).0.screen == app.screen,
{
}

/// The keys that zoom are handed on as they are: larger, smaller, and back to the size
/// that fits.
pub proof fn law_zoom_keys_zoom(app: AppView, keys: Keys)
    ensures
        app.zoomed(keys).contains(CommandView::ZoomIn) <==> keys.zoom_in,
        app.zoomed(keys).contains(CommandView::ZoomOut) <==> keys.zoom_out,
        app.zoomed(keys).contains(CommandView::ResetZoom) <==> keys.zoom_reset,
        app.zoomed(keys).contains(CommandView::ResetScale) <==> keys.zoom_reset,
        app.moved_by(keys).0 == app.steered(keys).0,
        steers_nowhere(keys) ==> app.moved_by(keys).1 == app.zoomed(keys),
{
    reveal(AppView::moved_by);
    let list = app.zoomed(keys);
    let n = list.len() as int;
    if keys.zoom_in {
        assert(list[0] == CommandView::ZoomIn);
    }
    if keys.zoom_out {
        assert(list[if keys.zoom_in {
            1
        } else {
            0
        }] == CommandView::ZoomOut);
    }
    if keys.zoom_reset {
        assert(list[n - 2] == CommandView::ResetZoom && list[n - 1] == CommandView::ResetScale);
    }
    if steers_nowhere(keys) {
        assert(app.moved_by(keys).1 =~= list);
    }
}

/// The key of the browser opens it where it was, or at the start where it was nowhere
/// yet, and lists that directory; it closes an open one.
pub proof fn law_the_browser_opens_and_closes(app: AppView, start: PathView)
    ensures
        app.browser.open ==> app.toggled(start).0 == (AppView {
            browser: BrowserView { open: false, ..app.browser },
            ..app
        }) && app.toggled(start).1 == Seq::<CommandView>::empty(),
        !app.browser.open ==> ({
            let step = app.toggled(start);
            let dir = if app.browser.at.bytes.len() == 0 {
                start
            } else {
                app.browser.at
            };
            &&& step.0.browser.open && step.0.browser.waiting
            &&& step.0.browser.at == dir
            &&& step.1.last() == (CommandView::List { id: step.0.browse_tracker.last, path: dir })
            &&& step.0.browse_tracker.current == Some(step.0.browse_tracker.last)
            &&& step.0.screen == app.screen && step.0.path == app.path
        }),
{
}

/// A dialog that is up is waited for; where none could be shown the browser opens in
/// its place, and says why. While one is up no other is asked for.
pub proof fn law_a_dialog_or_the_browser(app: AppView, reason: Seq<char>, start: PathView)
    ensures
        app.dialog_open ==> app.dialog_answered(DialogView::Shown, start) == app.unchanged()
            && app.dialog_answered(DialogView::Unavailable(reason), start) == app.unchanged(),
        !app.dialog_open ==> ({
            let shown = app.dialog_answered(DialogView::Shown, start);
            let other = app.dialog_answered(DialogView::Unavailable(reason), start);
            let failed = app.dialog_answered(DialogView::NotStarted, start);
            &&& shown.0.dialog_open && shown.0.dialog_note is None && shown.1.len() == 0
            &&& shown.0.browser == app.browser
            &&& !other.0.dialog_open && other.0.dialog_note == Some(reason)
            &&& other.0.browser.open && other.0.browser.at == start
            &&& other.1.last() == (CommandView::List {
                id: other.0.browse_tracker.last,
                path: start,
            })
            &&& !failed.0.dialog_open && failed.0.dialog_note is Some
            &&& failed.0.browser.open && failed.0.browser.at == start
        }),
{
}

// ---------------------------------------------------------------------------
// Requests
// ---------------------------------------------------------------------------
/// Asking for a preview cancels the one under way and asks for the path that is to be
/// shown, laid out as wide as the window is, under an id that was never used.
pub proof fn law_a_request_replaces_the_one_before(app: AppView)
    requires
        app.tracker.last < u64::MAX,
    ensures
        ({
            let step = app.sent();
            &&& step.1.last() == (CommandView::Preview {
                id: step.0.tracker.last,
                path: app.path,
                text_width: app.text_columns,
                sheet: app.sheet,
                page: app.page,
            })
            &&& step.0.tracker.last == app.tracker.last + 1
            &&& step.0.tracker.current == Some(step.0.tracker.last)
            &&& app.tracker.current is Some ==> step.1.len() == 2 && step.1[0]
                == CommandView::Cancel(Kind::Preview, app.tracker.current->0)
            &&& app.tracker.current is None ==> step.1.len() == 1
            &&& step.0.path == app.path && step.0.screen == app.screen
            &&& step.0.browser == app.browser && step.0.browse_tracker == app.browse_tracker
        }),
{
}

/// Asking for a listing cancels the one under way and asks for the browser's directory.
pub proof fn law_a_listing_replaces_the_one_before(app: AppView)
    requires
        app.browse_tracker.last < u64::MAX,
    ensures
        ({
            let step = app.listed();
            &&& step.1.last() == (CommandView::List {
                id: step.0.browse_tracker.last,
                path: app.browser.at,
            })
            &&& step.0.browse_tracker.last == app.browse_tracker.last + 1
            &&& step.0.browse_tracker.current == Some(step.0.browse_tracker.last)
            &&& app.browse_tracker.current is Some ==> step.1.len() == 2 && step.1[0]
                == CommandView::Cancel(Kind::Browse, app.browse_tracker.current->0)
            &&& app.browse_tracker.current is None ==> step.1.len() == 1
            &&& step.0.tracker == app.tracker && step.0.screen == app.screen
        }),
{
}

/// Showing a path asks for its preview and its neighbours, titles the window after it,
/// and brings the window up; nothing of the file before is left.
pub proof fn law_showing_a_path_asks_for_it(app: AppView, path: PathView)
    ensures
        ({
            let step = app.shown(path);
            &&& step.0.path == path
            &&& step.0.screen is Loading
            &&& step.0.visible
            &&& !step.0.sized && !step.0.reflowing
            &&& step.0.siblings == SiblingsView::none()
            &&& step.1.contains(CommandView::Scan(path))
            &&& step.1.contains(
                CommandView::Preview {
                    id: step.0.tracker.last,
                    path,
                    text_width: app.text_columns,
                    sheet: 0,
                    page: 0,
                },
            )
            &&& step.1.contains(CommandView::Title(super::labels::title_text(path)))
            &&& step.1.last() == CommandView::Focus
            &&& !app.visible ==> step.1.contains(CommandView::Visible(true))
            &&& app.visible ==> !step.1.contains(CommandView::Visible(true))
        }),
{
    let step = app.shown(path);
    let list = step.1;
    let n = list.len() as int;
    let a = app.tracker.dropped(Kind::Preview).len() as int;
    assert(list[0] == CommandView::Scan(path));
    assert(list[2 + a] is Preview);
    assert(list[3 + a] == CommandView::Title(super::labels::title_text(path)));
    if !app.visible {
        assert(list[4 + a] == CommandView::Visible(true));
    } else {
        assert(n == 5 + a);
        assert forall|k: int| 0 <= k < n implies list[k] != CommandView::Visible(true) by {
            if 2 <= k < 2 + a {
                assert(list[k] == app.tracker.dropped(Kind::Preview)[k - 2]);
            }
        }
    }
}

/// A window that comes up is visible and has the keyboard, and nothing in it changes.
pub proof fn law_a_window_comes_up_as_it_is(app: AppView)
    ensures
        app.revealed().0 == (AppView { visible: true, ..app }),
        app.revealed().1.last() == CommandView::Focus,
        app.revealed().1.contains(CommandView::Visible(true)) <==> !app.visible,
{
    if !app.visible {
        assert(app.revealed().1[0] == CommandView::Visible(true));
    } else {
        assert(app.revealed().1 =~= seq![CommandView::Focus]);
    }
}

/// Going home cancels what was under way and lays everything back to how it begins.
pub proof fn law_home_is_where_it_begins(app: AppView)
    ensures
        ({
            let step = app.at_home();
            &&& step.0.screen is Home && step.0.path.bytes.len() == 0
            &&& step.0.tracker.current is None && !step.0.sized
            &&& step.0.sheet == 0 && step.0.page == 0
            &&& step.1.contains(CommandView::ResetZoom)
            &&& step.1.contains(CommandView::ResetScale)
            &&& step.1.contains(CommandView::RefreshRecent)
            &&& step.1.last() == CommandView::Title("sekio"@)
            &&& app.tracker.current is Some ==> step.1.contains(
                CommandView::Cancel(Kind::Preview, app.tracker.current->0),
            )
            &&& step.0.browser == app.browser && step.0.recent == app.recent
        }),
{
    let list = app.at_home().1;
    let n = list.len() as int;
    assert(list[n - 4] == CommandView::ResetZoom && list[n - 3] == CommandView::RefreshRecent
        && list[n - 2] == CommandView::ResetScale);
    if app.tracker.current is Some {
        assert(list[0] == CommandView::Cancel(Kind::Preview, app.tracker.current->0));
    }
}

// ---------------------------------------------------------------------------
// Answers
// ---------------------------------------------------------------------------
/// A preview that failed says why in place of the file, and is not remembered. The
/// window is titled after the file either way.
pub proof fn law_a_failure_says_why(app: AppView, path: PathView, why: String, elapsed_ms: u64)
    requires
        app.tracker.current is Some,
    ensures
        ({
            let step = app.previewed(
                app.tracker.current->0,
                path,
                Outcome::Failed(why),
                elapsed_ms,
            );
            &&& step.0.screen == Screen::Failed(why)
            &&& step.0.recent == app.recent
            &&& step.0.tracker.current is None
            &&& step.1 == seq![CommandView::Title(super::labels::title_text(path))]
        }),
{
    let step = app.previewed(app.tracker.current->0, path, Outcome::Failed(why), elapsed_ms);
    assert(step.1 =~= seq![CommandView::Title(super::labels::title_text(path))]);
}

/// What is shown of a preview is the preview that came, under the request it answers.
pub proof fn law_what_is_shown_is_what_came(
    app: AppView,
    path: PathView,
    outcome: Outcome,
    elapsed_ms: u64,
)
    requires
        app.tracker.current is Some,
        outcome is Ready,
    ensures
        ({
            let step = app.previewed(app.tracker.current->0, path, outcome, elapsed_ms);
            &&& step.0.screen is Ready
            &&& step.0.screen->Ready_0.id == app.tracker.current->0
            &&& step.0.screen->Ready_0.elapsed_ms == elapsed_ms
            &&& step.0.screen->Ready_0.loaded == outcome->Ready_0
            &&& !step.0.reflowing
            &&& step.1.last() == CommandView::Title(super::labels::title_text(path))
            &&& step.0.path == app.path && step.0.siblings == app.siblings
        }),
{
}

/// The listing of the browser's directory is what the browser shows, at the row it was
/// on as far as there are rows; a listing that could not be made leaves none; and the
/// listing of another directory changes nothing in it.
pub proof fn law_a_listing_is_shown(b: BrowserView, dir: PathView, entries: Seq<ListEntry>)
    requires
        b.wf(),
    ensures
        path::same_path(dir, b.at) ==> ({
            let next = b.filled(dir, entries);
            &&& next.rows == entries
            &&& !next.waiting && !next.broken
            &&& next.at == b.at && next.open == b.open
            &&& b.place < entries.len() ==> next.place == b.place
            &&& 0 < entries.len() <= b.place ==> next.place == entries.len() - 1
            &&& entries.len() == 0 ==> next.place == 0
        }),
        path::same_path(dir, b.at) ==> ({
            let next = b.failed(dir);
            &&& next.rows.len() == 0 && next.place == 0
            &&& !next.waiting && next.broken
            &&& next.at == b.at && next.open == b.open
        }),
        !path::same_path(dir, b.at) ==> b.filled(dir, entries) == b && b.failed(dir) == b,
{
}

/// What came for the browser is taken only where it is waited for, and what is no
/// listing counts as one that could not be made.
pub proof fn law_the_browser_takes_what_it_waits_for(
    app: AppView,
    id: u64,
    dir: PathView,
    outcome: Outcome,
)
    ensures
        app.browse_tracker.current != Some(id) ==> app.listing_came(id, dir, outcome) == app,
        app.browse_tracker.current == Some(id) ==> ({
            let next = app.listing_came(id, dir, outcome);
            &&& next.browse_tracker.current is None
            &&& next.tracker == app.tracker && next.path == app.path
            &&& outcome is Failed ==> next.browser == app.browser.failed(dir)
            &&& outcome is Cancelled ==> next.browser == app.browser
            &&& outcome is Ready && outcome->Ready_0.content is Listing ==> next.browser
                == app.browser.filled(dir, outcome->Ready_0.content->entries@)
            &&& outcome is Ready && outcome->Ready_0.content !is Listing ==> next.browser
                == app.browser.failed(dir)
        }),
{
}

// ---------------------------------------------------------------------------
// Looks
// ---------------------------------------------------------------------------
/// Another shade lays what is on screen out anew; code is highlighted for it, and what
/// was highlighted for another is asked for again. The same shade changes nothing.
pub proof fn law_another_shade_is_highlighted_anew(app: AppView, shade: Shade)
    ensures
        ({
            let step = app.shaded(shade);
            &&& step.0.shade == shade && step.0.highlighted == shade
            &&& step.1.contains(CommandView::Highlight(shade)) <==> shade != app.highlighted
            &&& step.1.contains(CommandView::DropLayout) <==> shade != app.shade
                && app.screen is Ready
            &&& shade != app.highlighted && app.path.bytes.len() > 0 ==> step.1.last() is Preview
                && step.1.last()->Preview_path == app.path && step.0.reflowing
            &&& shade == app.highlighted || app.path.bytes.len() == 0 ==> step.0.tracker
                == app.tracker
            &&& step.0.screen == app.screen
        }),
{
    let step = app.shaded(shade);
    let list = step.1;
    let d: int = if shade != app.shade && app.screen is Ready {
        1
    } else {
        0
    };
    if d == 1 {
        assert(list[0] == CommandView::DropLayout);
    }
    if shade != app.highlighted {
        assert(list[d] == CommandView::Highlight(shade));
        if app.path.len() > 0 {
            let more = (AppView { highlighted: shade, shade, ..app }).reflowed().1;
            let a = app.tracker.dropped(Kind::Preview);
            assert(list.skip(d + 1) =~= more);
            assert forall|k: int| d < k < list.len() implies list[k] != CommandView::DropLayout by {
                assert(list[k] == more[k - d - 1]);
                if k - d - 1 < a.len() {
                    assert(more[k - d - 1] == a[k - d - 1]);
                }
            }
        }
    }
}

/// A theme that is chosen is painted in and written down, once.
pub proof fn law_a_chosen_theme_is_kept(app: AppView, theme: Theme)
    ensures
        app.themed(theme).0.theme == theme,
        app.theme == theme ==> app.themed(theme) == app.unchanged(),
        app.theme != theme ==> app.themed(theme).1.contains(CommandView::InstallTheme(theme))
            && app.themed(theme).1.contains(CommandView::SaveTheme(theme)),
        app.themed(theme).0.themed(theme) == app.themed(theme).0.unchanged(),
{
    if app.theme != theme {
        assert(app.themed(theme).1[0] == CommandView::InstallTheme(theme));
        assert(app.themed(theme).1[1] == CommandView::SaveTheme(theme));
    }
}

/// Another sheet is asked for of the same file, and the one that is shown is not asked
/// for again.
pub proof fn law_another_sheet_of_the_same_file(app: AppView, sheet: usize)
    ensures
        app.sheet == sheet ==> app.with_sheet(sheet) == app.unchanged(),
        app.sheet != sheet ==> ({
            let step = app.with_sheet(sheet);
            &&& step.0.sheet == sheet && step.0.path == app.path && step.0.screen == app.screen
            &&& step.1.last() is Preview
            &&& step.1.last()->Preview_path == app.path
            &&& step.1.last()->Preview_sheet == sheet
        }),
{
}

/// The wheel turns the pages of a document, one at a time and as far as there are
/// pages, and zooms whatever has none; where zooming is asked for it always zooms.
pub proof fn law_the_wheel_turns_pages(app: AppView, forward: bool, zooming: bool)
    ensures
        app.screen !is Ready ==> app.wheeled(forward, zooming) == (app, seq![
            CommandView::ZoomByWheel,
        ]),
        app.screen is Ready ==> ({
            let pages = layout::pages_of(app.screen->Ready_0.loaded.content);
            let step = app.wheeled(forward, zooming);
            &&& pages is None || zooming ==> step == (app, seq![CommandView::ZoomByWheel])
            &&& pages is Some && !zooming ==> ({
                let current = (pages->0).0;
                let total = (pages->0).1;
                &&& forward && 0 <= current && current + 1 < total <= usize::MAX ==> step.0.page
                    == current + 1 && step.1.last() is Preview && step.1.last()->Preview_page
                    == current + 1
                &&& !forward && 0 < current < total <= usize::MAX ==> step.0.page == current - 1
                    && step.1.last() is Preview && step.1.last()->Preview_page == current - 1
                &&& forward && 0 <= current && current + 1 == total ==> step == app.unchanged()
                &&& !forward && current == 0 && total > 0 ==> step == app.unchanged()
            })
        }),
{
}

/// A window is fitted to a preview where it has not been yet, is no application's and
/// has no browser open in it, and to no other.
pub proof fn law_which_windows_are_fitted(app: AppView, content: PreviewContent)
    ensures
        !app.sized && app.mode != Mode::App && !app.browser.open ==> app.fitted(content).1 == seq![
            CommandView::Fit(layout::suited(content)),
        ] && app.fitted(content).0.sized,
        app.sized || app.mode == Mode::App || app.browser.open ==> app.fitted(content)
            == app.unchanged(),
{
}

/// A preview is laid out anew for another width exactly where it is text that was laid
/// out for one.
pub proof fn law_only_text_is_laid_out_anew(app: AppView)
    ensures
        app.reflows() <==> app.text_columns is Some && app.screen is Ready
            && app.screen->Ready_0.loaded.content is Text,
{
}

// ---------------------------------------------------------------------------
// What is handed in and out
// ---------------------------------------------------------------------------
/// What was read from the disk stays below what this session added: the newest of the
/// session is on top, and where the session added nothing the list is what was read.
pub proof fn law_the_session_comes_first(session: Seq<PathView>, read: Seq<PathView>)
    requires
        recent::orderly(session),
        recent::orderly(read),
    ensures
        session.len() == 0 ==> super::model::merged(session, read) == read,
        session.len() > 0 ==> super::model::merged(session, read).len() > 0 && path::same_path(
            super::model::merged(session, read)[0],
            session[0],
        ),
        recent::orderly(super::model::merged(session, read)),
    decreases session.len(),
{
    if session.len() > 0 {
        let rest = session.drop_first();
        assert forall|i: int| 0 <= i < rest.len() implies path::absolute(#[trigger] rest[i]) by {
            assert(rest[i] == session[i + 1]);
        }
        assert forall|i: int, j: int| 0 <= i < j < rest.len() implies !path::same_path(
            #[trigger] rest[i],
            #[trigger] rest[j],
        ) by {
            assert(rest[i] == session[i + 1] && rest[j] == session[j + 1]);
        }
        law_the_session_comes_first(rest, read);
        assert(path::absolute(session[0]));
        recent::law_the_newest_comes_first(super::model::merged(rest, read), session[0]);
    }
}

/// The path that is opened out of several is the last that came.
pub proof fn law_the_last_answer_counts(answers: Seq<Option<FilePath>>, answer: Option<FilePath>)
    ensures
        super::chosen(Seq::empty()) is None,
        answer is Some ==> super::chosen(answers.push(answer)) == Some(answer->0@),
        answer is None ==> super::chosen(answers.push(answer)) == super::chosen(answers),
{
    assert(answers.push(answer).drop_last() =~= answers);
}

/// The path that counts out of several that arrived is the last.
pub proof fn law_the_last_arrival_counts(paths: Seq<FilePath>, path: FilePath)
    ensures
        super::newest(Seq::empty()) is None,
        super::newest(paths.push(path)) == Some(path@),
{
}

/// A command means what it says: what is done to the window, to zoom, to pages and to
/// files is told apart.
pub proof fn law_a_command_means_what_it_says(command: Command)
    ensures
        command is Visible ==> command.told() == CommandView::Visible(command->Visible_0),
        command is Focus <==> command.told() is Focus,
        command is Close <==> command.told() is Close,
        command is CancelClose <==> command.told() is CancelClose,
        command is Cancel ==> command.told() == CommandView::Cancel(
            command->Cancel_0,
            command->Cancel_1,
        ),
        command is Preview <==> command.told() is Preview,
        command is Preview ==> command.told()->Preview_path == command->Preview_path@
            && command.told()->Preview_id == command->Preview_id && command.told()->Preview_sheet
            == command->Preview_sheet && command.told()->Preview_page == command->Preview_page
            && command.told()->text_width == command->text_width,
        command is List <==> command.told() is List,
        command is List ==> command.told()->List_path == command->List_path@
            && command.told()->List_id == command->List_id,
        command is Scan ==> command.told() == CommandView::Scan(command->Scan_0@),
        command is Open ==> command.told() == CommandView::Open(command->Open_0@),
        command is AskDialog <==> command.told() is AskDialog,
        command is Rebind ==> command.told() == CommandView::Rebind(command->Rebind_0@),
        command is Fit ==> command.told() == CommandView::Fit(command->Fit_0),
        command is RefreshRecent <==> command.told() is RefreshRecent,
        command is SaveRecent <==> command.told() is SaveRecent,
        command is UpdateTray <==> command.told() is UpdateTray,
        command is ResetZoom <==> command.told() is ResetZoom,
        command is ResetScale <==> command.told() is ResetScale,
        command is ZoomIn <==> command.told() is ZoomIn,
        command is ZoomOut <==> command.told() is ZoomOut,
        command is ZoomByWheel <==> command.told() is ZoomByWheel,
        command is ClearSearch <==> command.told() is ClearSearch,
        command is DropLayout <==> command.told() is DropLayout,
        command is Highlight ==> command.told() == CommandView::Highlight(command->Highlight_0),
        command is InstallTheme ==> command.told() == CommandView::InstallTheme(
            command->InstallTheme_0,
        ),
        command is SaveTheme ==> command.told() == CommandView::SaveTheme(command->SaveTheme_0),
        command is SaveHotkey ==> command.told() == CommandView::SaveHotkey(command->SaveHotkey_0@),
        command is RepaintLater <==> command.told() is RepaintLater,
        command is Title ==> command.told() == CommandView::Title(command->Title_0@),
{
}

// ---------------------------------------------------------------------------
// What a step leaves alone
// ---------------------------------------------------------------------------
/// Going from file to file changes which file is shown, and begins at its first sheet and
/// its first page; all else about the window stays.
pub proof fn law_another_file_begins_at_its_first_page(app: AppView, delta: int)
    ensures
        ({
            let step = app.navigated(delta);
            let to = step.0.siblings.index;
            &&& step != app.unchanged() ==> {
                &&& to is Some
                &&& step.0 == (AppView {
                    tracker: step.0.tracker,
                    siblings: SiblingsView { index: to, ..app.siblings },
                    path: app.siblings.files[to->0 as int],
                    screen: Screen::Loading,
                    sheet: 0,
                    page: 0,
                    reflowing: false,
                    ..app
                })
                &&& step.1.len() > 0
                &&& step.1[0] == CommandView::ResetZoom
            }
        }),
{
}

/// The browser goes to a directory with nothing in it yet and a listing on its way; the
/// preview stays as it is.
pub proof fn law_the_browser_goes_to_a_directory(app: AppView, dir: PathView)
    ensures
        app.browsed(dir).0 == (AppView {
            browse_tracker: app.browsed(dir).0.browse_tracker,
            browser: BrowserView {
                open: true,
                at: dir,
                rows: Seq::empty(),
                place: 0,
                waiting: true,
                broken: false,
            },
            ..app
        }),
        app.browsed(dir).1.last() == (CommandView::List {
            id: app.browsed(dir).0.browse_tracker.last,
            path: dir,
        }),
{
}

/// A path that is shown is shown from its beginning, with no neighbours known yet; what
/// is open beside it, and what was chosen, stays.
pub proof fn law_a_shown_path_leaves_the_rest(app: AppView, path: PathView)
    ensures
        app.shown(path).0 == (AppView {
            tracker: app.shown(path).0.tracker,
            path,
            siblings: SiblingsView { files: Seq::empty(), index: None, wraps: false },
            screen: Screen::Loading,
            sheet: 0,
            page: 0,
            sized: false,
            visible: true,
            reflowing: false,
            ..app
        }),
        app.opened(path).0 == (AppView {
            mode: app.opened(path).0.mode,
            dialog_note: None,
            tracker: app.opened(path).0.tracker,
            ..app.shown(path).0
        }),
        app.mode == Mode::Popup ==> app.opened(path).0.mode == Mode::App,
        app.mode != Mode::Popup ==> app.opened(path).0.mode == app.mode,
        app.shown(path).1.contains(CommandView::Visible(true)) <==> !app.visible,
        app.shown(path).1.last() == CommandView::Focus,
{
    let c = app.shown(path).1;
    let dropped = app.tracker.dropped(Kind::Preview);
    if !app.visible {
        assert(c[c.len() - 2] == CommandView::Visible(true));
    } else {
        assert forall|i: int| 0 <= i < c.len() implies c[i] != CommandView::Visible(true) by {
            if 2 <= i < 2 + dropped.len() {
                assert(c[i] == dropped[i - 2]);
            }
        }
    }
}

/// Stopping cancels what is under way, of either kind, and changes nothing else.
pub proof fn law_stopping_cancels_what_is_under_way(app: AppView, id: u64)
    ensures
        ({
            let step = app.stopped();
            &&& step.0.tracker.current is None && step.0.browse_tracker.current is None
            &&& step.0.tracker.last == app.tracker.last
            &&& step.0.browse_tracker.last == app.browse_tracker.last
            &&& step.0 == (AppView {
                tracker: step.0.tracker,
                browse_tracker: step.0.browse_tracker,
                ..app
            })
            &&& step.1.contains(CommandView::Cancel(Kind::Preview, id)) <==> app.tracker.current
                == Some(id)
            &&& step.1.contains(CommandView::Cancel(Kind::Browse, id))
                <==> app.browse_tracker.current == Some(id)
        }),
{
    let step = app.stopped();
    if app.tracker.current == Some(id) {
        assert(step.1[0] == CommandView::Cancel(Kind::Preview, id));
    }
    if app.browse_tracker.current == Some(id) {
        assert(step.1[step.1.len() - 1] == CommandView::Cancel(Kind::Browse, id));
    }
}

/// A process that is to end remembers that it is, so that closing the window is not
/// answered by hiding it.
pub proof fn law_a_process_that_ends_is_not_held_up(app: AppView)
    ensures
        app.ended().0.quitting,
        app.ended().1.last() == CommandView::Close,
        app.ended().0.close_asked() == app.ended().0.unchanged(),
        !app.quitting && app.mode == Mode::Daemon ==> app.close_asked().1.len() > 0
            && app.close_asked().1[0] == CommandView::CancelClose,
        app.mode != Mode::Daemon ==> app.close_asked() == app.unchanged(),
        app.ended().0 == (AppView { quitting: true, ..app.stopped().0 }),
{
}

/// The home screen shows nothing of the file that was on screen, and asks for the recent
/// files; what was chosen, and the browser, stay.
pub proof fn law_the_home_screen_leaves_the_rest(app: AppView)
    ensures
        app.at_home().0 == (AppView {
            tracker: app.at_home().0.tracker,
            screen: Screen::Home,
            path: PathView::none(),
            siblings: SiblingsView { files: Seq::empty(), index: None, wraps: false },
            sheet: 0,
            page: 0,
            sized: false,
            ..app
        }),
        app.at_home().0.tracker.current is None,
        app.at_home().1.contains(CommandView::RefreshRecent),
        app.at_home().1.last() == CommandView::Title("sekio"@),
{
    let c = app.at_home().1;
    assert(c[c.len() - 3] == CommandView::RefreshRecent);
}

/// A window that is hidden is gone from the screen with all that was in it.
pub proof fn law_a_hidden_window_is_empty(app: AppView)
    requires
        app.mode == Mode::Daemon,
    ensures
        app.dismissed().0 == (AppView {
            tracker: app.stopped().0.tracker,
            browse_tracker: app.stopped().0.browse_tracker,
            screen: Screen::Home,
            path: PathView::none(),
            siblings: SiblingsView { files: Seq::empty(), index: None, wraps: false },
            sheet: 0,
            page: 0,
            browser: BrowserView { open: false, ..app.browser },
            visible: false,
            ..app
        }),
        app.dismissed().1.last() == CommandView::Visible(false),
{
}

/// A file that is news is put on top of the list, which is saved; one that is on top
/// already changes nothing.
pub proof fn law_a_previewed_file_is_remembered(app: AppView, path: PathView)
    ensures
        recent::is_news(app.recent, path) ==> app.remembered(path).0 == (AppView {
            recent: recent::with_newest(app.recent, path),
            ..app
        }) && app.remembered(path).1.contains(CommandView::SaveRecent) && app.remembered(
            path,
        ).1.contains(CommandView::RefreshRecent),
        !recent::is_news(app.recent, path) ==> app.remembered(path) == app.unchanged(),
{
    if recent::is_news(app.recent, path) {
        let c = app.remembered(path).1;
        assert(c[0] == CommandView::SaveRecent);
        assert(c[1] == CommandView::RefreshRecent);
    }
}

/// A preview that came is dropped where it is not the one that is waited for; else it is
/// no longer waited for, and its title is shown.
pub proof fn law_only_what_is_waited_for_is_taken(
    app: AppView,
    id: u64,
    path: PathView,
    outcome: Outcome,
    elapsed_ms: u64,
)
    ensures
        app.tracker.current != Some(id) ==> app.previewed(id, path, outcome, elapsed_ms)
            == app.unchanged(),
        app.tracker.current == Some(id) ==> ({
            let step = app.previewed(id, path, outcome, elapsed_ms);
            &&& step.0.tracker.current is None
            &&& !step.0.reflowing
            &&& step.0.path == app.path && step.0.siblings == app.siblings && step.0.browser
                == app.browser && step.0.visible == app.visible && step.0.mode == app.mode
                && step.0.sheet == app.sheet && step.0.page == app.page && step.0.quitting
                == app.quitting
            &&& step.1.last() == CommandView::Title(super::labels::title_text(path))
        }),
{
    let gone = AppView { tracker: app.tracker.idle(), reflowing: false, ..app };
    if outcome is Ready {
        let a = gone.fitted((outcome->Ready_0).content);
        assert(a.0 == (AppView { sized: a.0.sized, ..gone }));
        let b = a.0.remembered(path);
        assert(b.0 == (AppView { recent: b.0.recent, ..a.0 }));
    }
}

/// A listing that came is dropped where it is not the one that is waited for; else it is
/// no longer waited for, and nothing but the browser's rows changes.
pub proof fn law_only_a_listing_that_is_waited_for_is_taken(
    app: AppView,
    id: u64,
    path: PathView,
    outcome: Outcome,
)
    ensures
        app.browse_tracker.current != Some(id) ==> app.listing_came(id, path, outcome) == app,
        app.browse_tracker.current == Some(id) ==> ({
            let next = app.listing_came(id, path, outcome);
            &&& next.browse_tracker.current is None
            &&& next == (AppView {
                browse_tracker: next.browse_tracker,
                browser: next.browser,
                ..app
            })
            &&& next.browser.open == app.browser.open && next.browser.at == app.browser.at
        }),
{
}

/// Another sheet is asked for and nothing else changes; so is another page.
pub proof fn law_another_sheet_leaves_the_rest(app: AppView, sheet: usize, forward: bool, zooming: bool)
    ensures
        sheet == app.sheet ==> app.with_sheet(sheet) == app.unchanged(),
        sheet != app.sheet ==> app.with_sheet(sheet).0 == (AppView {
            sheet,
            tracker: app.with_sheet(sheet).0.tracker,
            ..app
        }),
        app.wheeled(forward, zooming).0 == (AppView {
            page: app.wheeled(forward, zooming).0.page,
            tracker: app.wheeled(forward, zooming).0.tracker,
            ..app
        }),
        zooming ==> app.wheeled(forward, zooming).0 == app,
{
}

} // verus!
