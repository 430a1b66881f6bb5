//! What holds of the window whatever happens to it.
use vstd::prelude::*;

use super::model::{AppView, CommandView, DialogView, SiblingsView};
use super::{Keys, Outcome};
use crate::path::PathView;
use crate::state::{self, Mode};

verus! {

/// Whether nothing among these closes the window.
pub open spec fn keeps_open(list: Seq<CommandView>) -> bool {
    forall|i: int| 0 <= i < list.len() ==> (#[trigger] list[i]) !is Close
}

proof fn lemma_both_keep_open(a: Seq<CommandView>, b: Seq<CommandView>)
    requires
        keeps_open(a),
        keeps_open(b),
    ensures
        keeps_open(a + b),
{
}

/// An answer that is not waited for changes nothing: not the screen, not the
/// title, not the list of recent files, and not the browser.
pub proof fn law_a_late_answer_changes_nothing(
    app: AppView,
    id: u64,
    path: PathView,
    outcome: Outcome,
    elapsed_ms: u64,
)
    ensures
        app.tracker.current != Some(id) ==> app.previewed(id, path, outcome, elapsed_ms)
            == app.unchanged(),
        app.browse_tracker.current != Some(id) ==> app.listing_came(id, path, outcome) == app,
{
}

/// Once another file is shown, an answer for the one before comes late.
pub proof fn law_an_answer_for_the_file_before_comes_late(
    app: AppView,
    path: PathView,
    outcome: Outcome,
    elapsed_ms: u64,
)
    requires
        app.wf(),
        app.has_ids(1),
        app.tracker.current is Some,
    ensures
        ({
            let next = app.shown(path).0;
            next.previewed(app.tracker.current->0, path, outcome, elapsed_ms) == next.unchanged()
        }),
        app.shown(path).1.contains(
            CommandView::Cancel(super::model::Kind::Preview, app.tracker.current->0),
        ),
{
    let step = app.shown(path);
    assert(step.1[2] == CommandView::Cancel(
        super::model::Kind::Preview,
        app.tracker.current->0,
    ));
}

/// A listing never disturbs a preview, nor a preview a listing: each has its own
/// requests.
pub proof fn law_listings_and_previews_do_not_meet(
    app: AppView,
    id: u64,
    path: PathView,
    outcome: Outcome,
    elapsed_ms: u64,
)
    ensures
        app.browsed(path).0.tracker == app.tracker,
        app.browsed(path).0.screen == app.screen,
        app.shown(path).0.browse_tracker == app.browse_tracker,
        app.shown(path).0.browser == app.browser,
        app.listing_came(id, path, outcome).screen == app.screen,
        app.previewed(id, path, outcome, elapsed_ms).0.browser == app.browser,
{
}

proof fn lemma_steps_keep_open(app: AppView, path: PathView, answer: DialogView)
    ensures
        keeps_open(app.sent().1),
        keeps_open(app.listed().1),
        keeps_open(app.browsed(path).1),
        keeps_open(app.ascended().1),
        keeps_open(app.toggled(path).1),
        keeps_open(app.activated().1),
        keeps_open(app.stopped().1),
        keeps_open(app.at_home().1),
        keeps_open(app.navigated(1).1),
        keeps_open(app.navigated(-1).1),
        keeps_open(app.dialog_answered(answer, path).1),
{
}

#[verifier::spinoff_prover]
proof fn lemma_steering_keeps_open(app: AppView, keys: Keys, answer: DialogView)
    ensures
        keeps_open(app.moved_by(keys).1),
{
    reveal(AppView::moved_by);
    let b = app.selected_by(keys);
    lemma_steps_keep_open(app, PathView::none(), answer);
    lemma_steps_keep_open(b, PathView::none(), answer);
    let c = if keys.left && !keys.typing {
        b.ascended()
    } else {
        b.unchanged()
    };
    lemma_steps_keep_open(c.0, PathView::none(), answer);
    lemma_both_keep_open(c.1, c.0.activated().1);
    assert(keeps_open(app.steered(keys).1));
    lemma_both_keep_open(app.steered(keys).1, app.zoomed(keys));
}

/// A window that is resident, or that the user has opened something through, is
/// not closed by Escape or Space.
pub proof fn law_escape_keeps_a_lasting_window(app: AppView)
    requires
        app.mode != Mode::Popup,
    ensures
        keeps_open(app.dismissed().1),
{
    lemma_steps_keep_open(app, PathView::none(), DialogView::Shown);
}

proof fn lemma_escaping_keeps_open(app: AppView, keys: Keys, answer: DialogView)
    requires
        app.mode != Mode::Popup,
    ensures
        keeps_open(app.escaped(keys).1),
{
    let closed = AppView { browser: app.browser.closed(), ..app };
    law_escape_keeps_a_lasting_window(app);
    lemma_steering_keeps_open(app, keys, answer);
    lemma_steering_keeps_open(closed, keys, answer);
    lemma_both_keep_open(seq![CommandView::ClearSearch], app.moved_by(keys).1);
}

/// A resident window is hidden, not closed, by the window manager, by Escape and by
/// the key that quits.
pub proof fn law_a_resident_window_is_hidden_not_closed(
    app: AppView,
    keys: Keys,
    answer: DialogView,
    start: PathView,
)
    requires
        app.mode == Mode::Daemon,
        !app.quitting,
    ensures
        keeps_open(app.dismissed().1),
        keeps_open(app.quit().1),
        keeps_open(app.close_asked().1),
        keeps_open(app.keyed(keys, answer, start).1),
        app.close_asked().1.contains(CommandView::CancelClose),
        !app.dismissed().0.visible,
        !app.quit().0.visible,
        !app.close_asked().0.visible,
{
    lemma_steps_keep_open(app, start, answer);
    law_escape_keeps_a_lasting_window(app);
    assert(app.close_asked().1[0] == CommandView::CancelClose);
    if !keys.quit {
        let a = if keys.open {
            app.dialog_answered(answer, start)
        } else {
            app.unchanged()
        };
        assert(a.0.mode == Mode::Daemon && keeps_open(a.1));
        let b = if keys.browse {
            super::model::after(a.1, a.0.toggled(start))
        } else {
            a
        };
        assert(b.0.mode == Mode::Daemon && keeps_open(b.1)) by {
            lemma_steps_keep_open(a.0, start, answer);
            lemma_both_keep_open(a.1, a.0.toggled(start).1);
        }
        lemma_escaping_keeps_open(b.0, keys, answer);
        lemma_both_keep_open(b.1, b.0.escaped(keys).1);
    }
}

/// The one end of a resident process is the end it was asked for: from there on
/// closing is not refused.
pub proof fn law_an_end_is_an_end(app: AppView)
    ensures
        app.ended().0.quitting,
        app.ended().1.len() > 0 && app.ended().1.last() == CommandView::Close,
        app.ended().0.close_asked() == app.ended().0.unchanged(),
{
}

/// A popup that the user opens something through stays: it is an application then,
/// and Escape leads home.
pub proof fn law_opening_makes_the_window_stay(app: AppView, path: PathView)
    ensures
        app.opened(path).0.mode != Mode::Popup,
        keeps_open(app.opened(path).0.dismissed().1),
        app.mode != Mode::Daemon ==> app.opened(path).0.dismissed().0.screen is Home
            && app.opened(path).0.dismissed().0.visible,
{
    law_escape_keeps_a_lasting_window(app.opened(path).0);
}

/// Nothing is dismissed where nothing is shown: Escape on the home screen of an
/// application does nothing.
pub proof fn law_escape_on_the_home_screen_does_nothing(app: AppView)
    requires
        app.mode == Mode::App,
        app.screen is Home,
    ensures
        app.dismissed() == app.unchanged(),
{
}

/// What is put away is gone: no file, no neighbours, no request under way, and a
/// second time there is nothing left to put away.
pub proof fn law_what_is_put_away_is_gone(app: AppView)
    requires
        app.mode != Mode::Popup,
        app.mode == Mode::Daemon || app.screen !is Home,
    ensures
        ({
            let next = app.dismissed().0;
            &&& next.screen is Home
            &&& next.path.len() == 0
            &&& next.siblings == SiblingsView::none()
            &&& next.tracker.current is None
            &&& next.sheet == 0 && next.page == 0
            &&& next.dismissed().0 == next
        }),
{
    let next = app.dismissed().0;
    assert(next.dismissed().0 == next);
}

/// A sheet and a page belong to the file: another file starts with its first.
pub proof fn law_another_file_starts_at_its_beginning(app: AppView, path: PathView, delta: int)
    ensures
        app.shown(path).0.sheet == 0 && app.shown(path).0.page == 0,
        app.navigated(delta).0 != app ==> app.navigated(delta).0.sheet == 0 && app.navigated(
            delta,
        ).0.page == 0,
{
}

/// A step to the next file and one back lead to the same file.
pub proof fn law_a_step_forth_and_back(app: AppView)
    requires
        app.wf(),
        app.siblings.index is Some,
        app.path == app.siblings.files[app.siblings.index->0 as int],
        state::step_to(app.siblings.files.len(), app.siblings.index, app.siblings.wraps, 1) is Some,
    ensures
        app.navigated(1).0.navigated(-1).0.path == app.path,
        app.navigated(1).0.navigated(-1).0.siblings == app.siblings,
{
    crate::state::law_a_step_can_be_taken_back(
        app.siblings.files.len(),
        app.siblings.index->0,
        app.siblings.wraps,
        1,
    );
}

/// Keeping a file on screen while it is laid out anew: asking again does not take
/// it away, and neither does being cancelled.
pub proof fn law_laying_out_anew_keeps_the_screen(app: AppView, path: PathView, elapsed_ms: u64)
    ensures
        app.reflowed().0.screen == app.screen,
        ({
            let waiting = app.reflowed().0;
            waiting.previewed(
                waiting.tracker.last,
                path,
                Outcome::Cancelled,
                elapsed_ms,
            ).0.screen == app.screen
        }),
{
}

/// Opening and closing the browser leaves it where it was.
pub proof fn law_the_browser_keeps_its_place(app: AppView, start: PathView)
    requires
        !app.browser.open,
        app.browser.at.len() > 0,
    ensures
        ({
            let again = app.toggled(start).0.toggled(start).0;
            &&& !again.browser.open
            &&& again.browser.at == app.browser.at
            &&& again.browser.rows == app.browser.rows
            &&& again.browser.place == app.browser.place
        }),
{
}

/// A preview that came is what is on screen, and its file is remembered first.
pub proof fn law_what_came_is_shown_and_remembered(
    app: AppView,
    path: PathView,
    outcome: Outcome,
    elapsed_ms: u64,
)
    requires
        app.wf(),
        app.tracker.current is Some,
        outcome is Ready,
        crate::path::absolute(path),
    ensures
        ({
            let next = app.previewed(app.tracker.current->0, path, outcome, elapsed_ms).0;
            &&& next.screen is Ready
            &&& next.screen->Ready_0.loaded == outcome->Ready_0
            &&& next.tracker.current is None
            &&& next.recent.len() > 0
            &&& crate::path::same_path(next.recent[0], path)
        }),
{
    crate::recent::law_the_newest_comes_first(app.recent, path);
}

/// A window is fitted to a preview once only, and an application's window never is.
pub proof fn law_a_window_is_fitted_once(
    app: AppView,
    content: crate::content::PreviewContent,
    other: crate::content::PreviewContent,
)
    ensures
        app.mode == Mode::App ==> app.fitted(content) == app.unchanged(),
        app.fitted(content).1.len() > 0 ==> app.fitted(content).0.fitted(other) == app.fitted(
            content,
        ).0.unchanged(),
{
}

} // verus!
