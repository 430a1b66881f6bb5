//! The window as a state and the steps between states. Each step gives the next
//! state and what is to be done outside: requests, titles, files to write.
use vstd::prelude::*;
use vstd::utf8;

use super::labels;
use super::layout::{self, WindowSize};
use super::{Keys, Outcome, Screen, Shown};
use crate::browser;
use crate::content::{ListEntry, PreviewContent};
use crate::path::{self, PathView};
use crate::recent;
use crate::state::{self, Close, Mode};
use crate::style::{Shade, Theme};

verus! {

// ---------------------------------------------------------------------------
// The parts of a state
// ---------------------------------------------------------------------------
/// Which requests a command is about.
#[derive(Debug, Clone, Copy, PartialEq, Eq, Structural)]
pub enum Kind {
    /// The preview.
    Preview,
    /// The listing in the browser pane.
    Browse,
}

/// The requests of one kind: the last id, and the one in flight.
pub struct TrackerView {
    pub last: u64,
    pub current: Option<u64>,
}

/// The neighbours of the file on screen.
pub struct SiblingsView {
    pub files: Seq<PathView>,
    pub index: Option<nat>,
    pub wraps: bool,
}

/// The browser pane.
pub struct BrowserView {
    pub open: bool,
    pub at: PathView,
    pub rows: Seq<ListEntry>,
    pub place: int,
    pub waiting: bool,
    pub broken: bool,
}

/// What opening a dialog came to.
pub enum DialogView {
    Shown,
    NotStarted,
    Unavailable(Seq<char>),
}

/// Something to be done outside.
pub enum CommandView {
    Title(Seq<char>),
    Visible(bool),
    Focus,
    Close,
    CancelClose,
    Cancel(Kind, u64),
    Preview {
        id: u64,
        path: PathView,
        text_width: Option<usize>,
        sheet: usize,
        page: usize,
    },
    List { id: u64, path: PathView },
    Scan(PathView),
    Open(PathView),
    AskDialog,
    Rebind(Seq<char>),
    Fit(WindowSize),
    RefreshRecent,
    SaveRecent,
    UpdateTray,
    ResetZoom,
    ResetScale,
    ZoomIn,
    ZoomOut,
    ZoomByWheel,
    ClearSearch,
    DropLayout,
    Highlight(Shade),
    InstallTheme(Theme),
    SaveTheme(Theme),
    SaveHotkey(Seq<char>),
    RepaintLater,
}

/// The window.
pub struct AppView {
    pub tracker: TrackerView,
    pub browse_tracker: TrackerView,
    pub siblings: SiblingsView,
    pub path: PathView,
    pub screen: Screen,
    pub sized: bool,
    pub wrap: bool,
    pub mode: Mode,
    pub shade: Shade,
    pub highlighted: Shade,
    pub theme: Theme,
    pub hotkey_spec: Option<Seq<char>>,
    pub quitting: bool,
    pub visible: bool,
    pub browser: BrowserView,
    pub dialog_open: bool,
    pub dialog_note: Option<Seq<char>>,
    pub recent: Seq<PathView>,
    pub recent_shown: Seq<PathView>,
    pub text_columns: Option<usize>,
    pub sheet: usize,
    pub page: usize,
    pub reflowing: bool,
}

/// A step: the state it leads to, and what is to be done.
pub type Step = (AppView, Seq<CommandView>);

/// A step, with what was to be done before it in front.
pub open spec fn after(before: Seq<CommandView>, step: Step) -> Step {
    (step.0, before + step.1)
}

impl TrackerView {
    /// The request in flight is one that was given out.
    pub open spec fn wf(self) -> bool {
        self.current is Some ==> 0 < self.current->0 <= self.last
    }

    /// Another request has begun.
    pub open spec fn begun(self) -> TrackerView {
        TrackerView { last: (self.last + 1) as u64, current: Some((self.last + 1) as u64) }
    }

    /// Nothing is in flight.
    pub open spec fn idle(self) -> TrackerView {
        TrackerView { last: self.last, current: None }
    }

    /// What is to be done about the request in flight, once it is not wanted.
    pub open spec fn dropped(self, kind: Kind) -> Seq<CommandView> {
        match self.current {
            Some(id) => seq![CommandView::Cancel(kind, id)],
            None => Seq::empty(),
        }
    }
}

impl SiblingsView {
    /// No neighbours.
    pub open spec fn none() -> SiblingsView {
        SiblingsView { files: Seq::empty(), index: None, wraps: false }
    }

    /// The place is a place in the list.
    pub open spec fn wf(self) -> bool {
        self.index is Some ==> self.index->0 < self.files.len()
    }
}

impl BrowserView {
    /// The place is a row, or 0 where there is none, and a directory that could not be
    /// listed has no rows.
    pub open spec fn wf(self) -> bool {
        &&& 0 <= self.place <= browser::last_place(self.rows.len())
        &&& self.broken ==> self.rows.len() == 0
    }

    /// Open on `dir`, with a listing on its way.
    pub open spec fn shown(self, dir: PathView) -> BrowserView {
        BrowserView {
            open: true,
            at: dir,
            rows: Seq::empty(),
            place: 0,
            waiting: true,
            broken: false,
        }
    }

    /// Closed, where it is.
    pub open spec fn closed(self) -> BrowserView {
        BrowserView { open: false, ..self }
    }

    /// With the selection moved.
    pub open spec fn moved(self, delta: int) -> BrowserView {
        BrowserView {
            place: browser::clamped(self.place + delta, 0, browser::last_place(self.rows.len())),
            ..self
        }
    }

    /// With a listing of `dir`.
    pub open spec fn filled(self, dir: PathView, entries: Seq<ListEntry>) -> BrowserView {
        if path::same_path(dir, self.at) {
            BrowserView {
                rows: entries,
                place: browser::clamped(self.place, 0, browser::last_place(entries.len())),
                waiting: false,
                broken: false,
                ..self
            }
        } else {
            self
        }
    }

    /// Without the listing of `dir`, which could not be made.
    pub open spec fn failed(self, dir: PathView) -> BrowserView {
        if path::same_path(dir, self.at) {
            BrowserView {
                rows: Seq::empty(),
                place: 0,
                waiting: false,
                broken: true,
                ..self
            }
        } else {
            self
        }
    }

    /// The directory above.
    pub open spec fn above(self) -> Option<PathView> {
        match path::parent_of(self.at) {
            Some(b) => if b.len() > 0 {
                Some(b)
            } else {
                None
            },
            None => None,
        }
    }
}

/// The list with the files of this session on top of those read from the disk.
pub open spec fn merged(session: Seq<PathView>, read: Seq<PathView>) -> Seq<PathView>
    decreases session.len(),
{
    if session.len() == 0 {
        read
    } else {
        recent::with_newest(merged(session.drop_first(), read), session[0])
    }
}

// ---------------------------------------------------------------------------
// Steps
// ---------------------------------------------------------------------------
impl AppView {
    /// Every part holds together.
    pub open spec fn wf(self) -> bool {
        &&& self.tracker.wf()
        &&& self.browse_tracker.wf()
        &&& self.siblings.wf()
        &&& self.browser.wf()
        &&& recent::orderly(self.recent)
    }

    /// There are `n` more ids of either kind.
    pub open spec fn has_ids(self, n: int) -> bool {
        &&& self.tracker.last + n <= u64::MAX
        &&& self.browse_tracker.last + n <= u64::MAX
    }

    /// Nothing happens.
    pub open spec fn unchanged(self) -> Step {
        (self, Seq::empty())
    }

    /// The preview of the current path is asked for.
    pub open spec fn sent(self) -> Step {
        let next = AppView { tracker: self.tracker.begun(), ..self };
        (
            next,
            self.tracker.dropped(Kind::Preview).push(
                CommandView::Preview {
                    id: next.tracker.last,
                    path: self.path,
                    text_width: self.text_columns,
                    sheet: self.sheet,
                    page: self.page,
                },
            ),
        )
    }

    /// The preview of a path that was gone to is asked for.
    pub open spec fn requested(self) -> Step {
        AppView { reflowing: false, ..self }.sent()
    }

    /// The preview of the path on screen is asked for again. What is on screen
    /// stays until it comes.
    pub open spec fn reflowed(self) -> Step {
        AppView { reflowing: true, ..self }.sent()
    }

    /// The listing of the browser's directory is asked for.
    pub open spec fn listed(self) -> Step {
        let next = AppView { browse_tracker: self.browse_tracker.begun(), ..self };
        (
            next,
            self.browse_tracker.dropped(Kind::Browse).push(
                CommandView::List { id: next.browse_tracker.last, path: self.browser.at },
            ),
        )
    }

    /// The browser goes to `dir`.
    pub open spec fn browsed(self, dir: PathView) -> Step {
        AppView { browser: self.browser.shown(dir), ..self }.listed()
    }

    /// The browser goes up, where there is an up.
    pub open spec fn ascended(self) -> Step {
        match self.browser.above() {
            Some(dir) => self.browsed(dir),
            None => self.unchanged(),
        }
    }

    /// The browser is shown or put away. It opens where it was, or at `start`.
    pub open spec fn toggled(self, start: PathView) -> Step {
        if self.browser.open {
            AppView { browser: self.browser.closed(), ..self }.unchanged()
        } else if self.browser.at.len() == 0 {
            self.browsed(start)
        } else {
            AppView {
                browser: BrowserView { open: true, waiting: true, ..self.browser },
                ..self
            }.listed()
        }
    }

    /// The row under the selection is taken: a directory is gone to, a file opened.
    pub open spec fn activated(self) -> Step {
        if self.browser.place < self.browser.rows.len() {
            let row = self.browser.rows[self.browser.place];
            let path = path::joined(self.browser.at, utf8::encode_utf8(row.name@));
            if row.is_dir {
                self.browsed(path)
            } else {
                (self, seq![CommandView::Open(path)])
            }
        } else {
            self.unchanged()
        }
    }

    /// A path is shown.
    pub open spec fn shown(self, path: PathView) -> Step {
        let next = AppView {
            path,
            siblings: SiblingsView::none(),
            screen: Screen::Loading,
            sheet: 0,
            page: 0,
            sized: false,
            ..self
        }.requested();
        let commands = seq![CommandView::Scan(path), CommandView::ResetZoom] + next.1 + seq![
            CommandView::Title(labels::title_text(path)),
        ];
        (
            AppView { visible: true, ..next.0 },
            (if self.visible {
                commands
            } else {
                commands.push(CommandView::Visible(true))
            }).push(CommandView::Focus),
        )
    }

    /// A path that the user opened through the window is shown. The window is no
    /// popup any more.
    pub open spec fn opened(self, path: PathView) -> Step {
        AppView { mode: self.mode.promotion(), dialog_note: None, ..self }.shown(path)
    }

    /// The window comes up as it is.
    pub open spec fn revealed(self) -> Step {
        (
            AppView { visible: true, ..self },
            if self.visible {
                seq![CommandView::Focus]
            } else {
                seq![CommandView::Visible(true), CommandView::Focus]
            },
        )
    }

    /// Nothing is in flight any more.
    pub open spec fn stopped(self) -> Step {
        (
            AppView {
                tracker: self.tracker.idle(),
                browse_tracker: self.browse_tracker.idle(),
                ..self
            },
            self.tracker.dropped(Kind::Preview) + self.browse_tracker.dropped(Kind::Browse),
        )
    }

    /// The preview is gone and the home screen is up.
    pub open spec fn at_home(self) -> Step {
        (
            AppView {
                tracker: self.tracker.idle(),
                screen: Screen::Home,
                path: PathView::none(),
                siblings: SiblingsView::none(),
                sheet: 0,
                page: 0,
                sized: false,
                ..self
            },
            self.tracker.dropped(Kind::Preview) + seq![
                CommandView::ResetZoom,
                CommandView::RefreshRecent,
                CommandView::ResetScale,
                CommandView::Title("sekio"@),
            ],
        )
    }

    /// What is on screen is dismissed.
    pub open spec fn dismissed(self) -> Step {
        match state::closing(self.mode, self.screen !is Home) {
            Close::Window => {
                let stop = self.stopped();
                (stop.0, stop.1.push(CommandView::Close))
            },
            Close::Hide => {
                let stop = self.stopped();
                (
                    AppView {
                        screen: Screen::Home,
                        path: PathView::none(),
                        siblings: SiblingsView::none(),
                        sheet: 0,
                        page: 0,
                        browser: stop.0.browser.closed(),
                        visible: false,
                        ..stop.0
                    },
                    stop.1 + seq![CommandView::ResetZoom, CommandView::Visible(false)],
                )
            },
            Close::Home => self.at_home(),
            Close::Nothing => self.unchanged(),
        }
    }

    /// The window is to end. A resident process only hides it.
    pub open spec fn quit(self) -> Step {
        if self.mode == Mode::Daemon {
            self.dismissed()
        } else {
            let stop = self.stopped();
            (stop.0, stop.1.push(CommandView::Close))
        }
    }

    /// The process is to end, resident or not.
    pub open spec fn ended(self) -> Step {
        let stop = AppView { quitting: true, ..self }.stopped();
        (stop.0, stop.1.push(CommandView::Close))
    }

    /// The window manager was asked to close the window.
    pub open spec fn close_asked(self) -> Step {
        if self.quitting || self.mode != Mode::Daemon {
            self.unchanged()
        } else {
            after(seq![CommandView::CancelClose], self.dismissed())
        }
    }

    /// The file `delta` places on is shown, where there is one.
    pub open spec fn navigated(self, delta: int) -> Step {
        match state::step_to(self.siblings.files.len(), self.siblings.index, self.siblings.wraps, delta) {
            Some(to) => after(
                seq![CommandView::ResetZoom],
                AppView {
                    siblings: SiblingsView { index: Some(to), ..self.siblings },
                    path: self.siblings.files[to as int],
                    screen: Screen::Loading,
                    sheet: 0,
                    page: 0,
                    ..self
                }.requested(),
            ),
            None => self.unchanged(),
        }
    }

    /// The browser is used in place of a dialog, and why is said.
    pub open spec fn fallen_back(self, reason: Seq<char>, start: PathView) -> Step {
        AppView { dialog_note: Some(reason), ..self }.browsed(start)
    }

    /// A dialog was to be shown, and this is what came of it.
    pub open spec fn dialog_answered(self, answer: DialogView, start: PathView) -> Step {
        if self.dialog_open {
            self.unchanged()
        } else {
            match answer {
                DialogView::Shown => AppView {
                    dialog_open: true,
                    dialog_note: None,
                    ..self
                }.unchanged(),
                DialogView::NotStarted => self.fallen_back(
                    "could not start the file dialog — using the built-in browser"@,
                    start,
                ),
                DialogView::Unavailable(reason) => self.fallen_back(reason, start),
            }
        }
    }

    /// The keys that move the selection in the browser.
    pub open spec fn selected_by(self, keys: Keys) -> AppView {
        let up = if keys.up {
            self.place_moved(-1)
        } else {
            self
        };
        if keys.down {
            up.place_moved(1)
        } else {
            up
        }
    }

    /// The selection moves by `delta` rows, as far as there are rows.
    pub open spec fn place_moved(self, delta: int) -> AppView {
        AppView { browser: self.browser.moved(delta), ..self }
    }

    /// The keys that steer the browser.
    pub open spec fn browser_steered(self, keys: Keys) -> Step {
        let b = self.selected_by(keys);
        let c = if keys.left && !keys.typing {
            b.ascended()
        } else {
            b.unchanged()
        };
        if (keys.right && !keys.typing) || keys.enter {
            after(c.1, c.0.activated())
        } else {
            c
        }
    }

    /// The keys that steer: in the browser where it is open, else from file to
    /// file.
    pub open spec fn steered(self, keys: Keys) -> Step {
        if self.browser.open {
            self.browser_steered(keys)
        } else if keys.left || keys.up {
            self.navigated(-1)
        } else if keys.right || keys.down {
            self.navigated(1)
        } else {
            self.unchanged()
        }
    }

    /// The keys that come last.
    pub open spec fn zoomed(self, keys: Keys) -> Seq<CommandView> {
        (if keys.zoom_in {
            seq![CommandView::ZoomIn]
        } else {
            Seq::empty()
        }) + (if keys.zoom_out {
            seq![CommandView::ZoomOut]
        } else {
            Seq::empty()
        }) + (if keys.zoom_reset {
            seq![CommandView::ResetZoom, CommandView::ResetScale]
        } else {
            Seq::empty()
        })
    }

    /// The keys that steer, and those that come after.
    #[verifier::opaque]
    pub open spec fn moved_by(self, keys: Keys) -> Step {
        let step = self.steered(keys);
        (step.0, step.1 + self.zoomed(keys))
    }

    /// The keys of a frame once what they open is open. Escape backs out of the
    /// browser first, and there out of the search first.
    pub open spec fn escaped(self, keys: Keys) -> Step {
        if keys.escape && self.browser.open {
            if keys.searching {
                after(seq![CommandView::ClearSearch], self.moved_by(keys))
            } else {
                AppView { browser: self.browser.closed(), ..self }.moved_by(keys)
            }
        } else if keys.escape || (keys.space && !keys.typing) {
            self.dismissed()
        } else {
            self.moved_by(keys)
        }
    }

    /// The keys of a frame.
    pub open spec fn keyed(self, keys: Keys, answer: DialogView, start: PathView) -> Step {
        if keys.quit {
            self.quit()
        } else {
            let a = if keys.open {
                self.dialog_answered(answer, start)
            } else {
                self.unchanged()
            };
            let b = if keys.browse {
                after(a.1, a.0.toggled(start))
            } else {
                a
            };
            after(b.1, b.0.escaped(keys))
        }
    }

    /// A file was previewed, and is remembered.
    pub open spec fn remembered(self, path: PathView) -> Step {
        if recent::is_news(self.recent, path) {
            (
                AppView { recent: recent::with_newest(self.recent, path), ..self },
                seq![CommandView::SaveRecent, CommandView::RefreshRecent],
            )
        } else {
            self.unchanged()
        }
    }

    /// The window is fitted to a preview, once, unless it is the user's own or the
    /// browser is open in it.
    pub open spec fn fitted(self, content: PreviewContent) -> Step {
        if !self.sized && self.mode != Mode::App && !self.browser.open {
            (AppView { sized: true, ..self }, seq![CommandView::Fit(layout::suited(content))])
        } else {
            self.unchanged()
        }
    }

    /// A preview that was waited for is put on screen, or why there is none.
    /// `reflowing` is whether what is on screen is of the same file.
    pub open spec fn taken(
        self,
        id: u64,
        path: PathView,
        outcome: Outcome,
        elapsed_ms: u64,
        reflowing: bool,
    ) -> Step {
        match outcome {
            Outcome::Ready(loaded) => {
                let a = self.fitted(loaded.content);
                let b = after(a.1, a.0.remembered(path));
                (AppView { screen: Screen::Ready(Shown { id, loaded, elapsed_ms }), ..b.0 }, b.1)
            },
            Outcome::Failed(message) => AppView {
                screen: Screen::Failed(message),
                ..self
            }.unchanged(),
            Outcome::Cancelled => if reflowing {
                self.unchanged()
            } else {
                AppView { screen: Screen::Loading, ..self }.unchanged()
            },
        }
    }

    /// A preview came. One that is not waited for is dropped.
    pub open spec fn previewed(
        self,
        id: u64,
        path: PathView,
        outcome: Outcome,
        elapsed_ms: u64,
    ) -> Step {
        if self.tracker.current != Some(id) {
            self.unchanged()
        } else {
            let step = AppView {
                tracker: self.tracker.idle(),
                reflowing: false,
                ..self
            }.taken(id, path, outcome, elapsed_ms, self.reflowing);
            (step.0, step.1.push(CommandView::Title(labels::title_text(path))))
        }
    }

    /// A listing came. One that is not waited for is dropped.
    pub open spec fn listing_came(self, id: u64, path: PathView, outcome: Outcome) -> AppView {
        if self.browse_tracker.current != Some(id) {
            self
        } else {
            let next = AppView { browse_tracker: self.browse_tracker.idle(), ..self };
            match outcome {
                Outcome::Ready(loaded) => match loaded.content {
                    PreviewContent::Listing { entries } => AppView {
                        browser: self.browser.filled(path, entries@),
                        ..next
                    },
                    _ => AppView { browser: self.browser.failed(path), ..next },
                },
                Outcome::Failed(_) => AppView { browser: self.browser.failed(path), ..next },
                Outcome::Cancelled => next,
            }
        }
    }

    /// The desktop's shade, and with it perhaps the window's, is this now.
    pub open spec fn shaded(self, shade: Shade) -> Step {
        let dropped = if shade != self.shade && self.screen is Ready {
            seq![CommandView::DropLayout]
        } else {
            Seq::empty()
        };
        let next = AppView { shade, ..self };
        if shade == self.highlighted {
            (next, dropped)
        } else {
            let told = dropped.push(CommandView::Highlight(shade));
            let other = AppView { highlighted: shade, ..next };
            if self.path.len() > 0 {
                after(told, other.reflowed())
            } else {
                (other, told)
            }
        }
    }

    /// Another theme is asked for.
    pub open spec fn themed(self, theme: Theme) -> Step {
        if self.theme == theme {
            self.unchanged()
        } else {
            (
                AppView { theme, ..self },
                seq![CommandView::InstallTheme(theme), CommandView::SaveTheme(theme)],
            )
        }
    }

    /// Another sheet of the file on screen is shown.
    pub open spec fn with_sheet(self, sheet: usize) -> Step {
        if self.sheet == sheet {
            self.unchanged()
        } else {
            AppView { sheet, ..self }.sent()
        }
    }

    /// The wheel was turned over a picture: it turns pages where there are pages,
    /// and zooms everything else.
    pub open spec fn wheeled(self, forward: bool, zooming: bool) -> Step {
        match self.screen {
            Screen::Ready(shown) => match layout::pages_of(shown.loaded.content) {
                Some((current, total)) => if zooming {
                    (self, seq![CommandView::ZoomByWheel])
                } else if layout::turned(current, total, forward) == current {
                    self.unchanged()
                } else {
                    AppView { page: layout::turned(current, total, forward) as usize, ..self }.sent()
                },
                None => (self, seq![CommandView::ZoomByWheel]),
            },
            _ => (self, seq![CommandView::ZoomByWheel]),
        }
    }

    /// Whether a preview is on screen that was laid out for a width.
    pub open spec fn reflows(self) -> bool {
        self.text_columns is Some && (match self.screen {
            Screen::Ready(shown) => shown.loaded.content is Text,
            _ => false,
        })
    }
}

} // verus!
