//! The window: what it shows, and what each key, click and answer does to it.
//!
//! Nothing here paints, reads or waits. A method changes the state and adds what
//! is to be done outside to a list of [`Command`]s, to be done in order.
use vstd::prelude::*;

pub mod labels;
pub mod laws;
pub mod layout;
pub mod model;
pub mod reflow;
pub mod step_laws;
pub mod tray;

use self::labels::title;
use self::layout::{desired_size, needs_relayout, next_page, paged, WindowSize};
use self::model::{
    AppView, BrowserView, CommandView, DialogView, Kind, SiblingsView, Step, TrackerView,
};
use crate::browser::{Activate, Browser};
use crate::content::{ListEntry, PreviewContent};
use crate::hotkey::Status;
use crate::path::{self, FilePath, PathView};
use crate::probe;
use crate::recent::Recent;
use crate::state::{close_action, Close, Mode, RequestTracker, Siblings};
use crate::style::{Shade, Theme};
use crate::text::{self, same_text};

verus! {

/// How much the text area has to gain or lose, in characters, before a preview is
/// laid out again.
pub const REFLOW_THRESHOLD: usize = 4;

/// How many requests of either kind a frame makes at most.
pub const FRAME_IDS: u64 = 16;

// ---------------------------------------------------------------------------
// What is on screen
// ---------------------------------------------------------------------------
/// A preview, as it came from the worker.
#[derive(Debug)]
pub struct Loaded {
    /// What it shows.
    pub content: PreviewContent,
    /// Whether there is more in the file.
    pub truncated: bool,
    /// Whether there is a picture to paint.
    pub pictured: bool,
}

/// A preview on screen.
#[derive(Debug)]
pub struct Shown {
    /// The request that it answers.
    pub id: u64,
    /// The preview.
    pub loaded: Loaded,
    /// How long it took.
    pub elapsed_ms: u64,
}

/// What the middle of the window shows.
#[derive(Debug)]
pub enum Screen {
    /// Nothing is loaded: the home screen.
    Home,
    /// A preview is on its way.
    Loading,
    /// A preview.
    Ready(Shown),
    /// Why there is none.
    Failed(String),
}

impl Screen {
    /// Whether a file, or an attempt at one, is on screen.
    pub fn is_showing(&self) -> (r: bool)
        ensures
            r == (*self !is Home),
    {
        match self {
            Screen::Home => false,
            _ => true,
        }
    }
}

/// What became of a request.
#[derive(Debug)]
pub enum Outcome {
    /// A preview.
    Ready(Loaded),
    /// Why there is none.
    Failed(String),
    /// It was cancelled.
    Cancelled,
}

/// The answer to a request.
#[derive(Debug)]
pub struct Response {
    /// The request.
    pub id: u64,
    /// What it was for.
    pub path: FilePath,
    /// What became of it.
    pub outcome: Outcome,
    /// How long it took.
    pub elapsed_ms: u64,
}

// ---------------------------------------------------------------------------
// What goes in and out
// ---------------------------------------------------------------------------
/// Something to be done outside.
#[derive(Debug)]
pub enum Command {
    /// Write this on the title bar.
    Title(String),
    /// Show or hide the window.
    Visible(bool),
    /// Raise the window.
    Focus,
    /// Close the window.
    Close,
    /// Do not close the window.
    CancelClose,
    /// Stop working on a request.
    Cancel(Kind, u64),
    /// Preview a path.
    Preview {
        id: u64,
        path: FilePath,
        text_width: Option<usize>,
        sheet: usize,
        page: usize,
    },
    /// List a directory.
    List { id: u64, path: FilePath },
    /// Look for the files next to this one, and hand them over.
    Scan(FilePath),
    /// Find out where this path leads, and open it.
    Open(FilePath),
    /// Show the dialog to open a file with.
    AskDialog,
    /// Grab this hotkey instead.
    Rebind(String),
    /// Fit the window.
    Fit(WindowSize),
    /// Look which of the recent files are still there, and say so.
    RefreshRecent,
    /// Write the recent files down.
    SaveRecent,
    /// Write the tray menu anew.
    UpdateTray,
    /// Show a picture as large as it fits.
    ResetZoom,
    /// Show everything as large as usual.
    ResetScale,
    /// Show things larger.
    ZoomIn,
    /// Show things smaller.
    ZoomOut,
    /// Show a picture larger or smaller, as the wheel was turned.
    ZoomByWheel,
    /// Empty the search box.
    ClearSearch,
    /// Lay the text out anew.
    DropLayout,
    /// Highlight code for this shade.
    Highlight(Shade),
    /// Paint in this theme.
    InstallTheme(Theme),
    /// Write the theme down.
    SaveTheme(Theme),
    /// Write the hotkey down.
    SaveHotkey(String),
    /// Come back once a new width has settled.
    RepaintLater,
}

impl Command {
    /// A command, by the text and the paths in it.
    pub open spec fn told(self) -> CommandView {
        match self {
            Command::Title(s) => CommandView::Title(s@),
            Command::Visible(b) => CommandView::Visible(b),
            Command::Focus => CommandView::Focus,
            Command::Close => CommandView::Close,
            Command::CancelClose => CommandView::CancelClose,
            Command::Cancel(kind, id) => CommandView::Cancel(kind, id),
            Command::Preview { id, path, text_width, sheet, page } => CommandView::Preview {
                id,
                path: path@,
                text_width,
                sheet,
                page,
            },
            Command::List { id, path } => CommandView::List { id, path: path@ },
            Command::Scan(p) => CommandView::Scan(p@),
            Command::Open(p) => CommandView::Open(p@),
            Command::AskDialog => CommandView::AskDialog,
            Command::Rebind(s) => CommandView::Rebind(s@),
            Command::Fit(size) => CommandView::Fit(size),
            Command::RefreshRecent => CommandView::RefreshRecent,
            Command::SaveRecent => CommandView::SaveRecent,
            Command::UpdateTray => CommandView::UpdateTray,
            Command::ResetZoom => CommandView::ResetZoom,
            Command::ResetScale => CommandView::ResetScale,
            Command::ZoomIn => CommandView::ZoomIn,
            Command::ZoomOut => CommandView::ZoomOut,
            Command::ZoomByWheel => CommandView::ZoomByWheel,
            Command::ClearSearch => CommandView::ClearSearch,
            Command::DropLayout => CommandView::DropLayout,
            Command::Highlight(shade) => CommandView::Highlight(shade),
            Command::InstallTheme(theme) => CommandView::InstallTheme(theme),
            Command::SaveTheme(theme) => CommandView::SaveTheme(theme),
            Command::SaveHotkey(s) => CommandView::SaveHotkey(s@),
            Command::RepaintLater => CommandView::RepaintLater,
        }
    }
}

/// Commands, by the text and the paths in them.
pub open spec fn commands(v: Seq<Command>) -> Seq<CommandView> {
    Seq::new(v.len(), |i: int| v[i].told())
}

fn emit(out: &mut Vec<Command>, command: Command)
    ensures
        commands(final(out)@) == commands(old(out)@).push(command.told()),
{
    out.push(command);
    assert(commands(out@) =~= commands(old(out)@).push(command.told()));
}

/// The keys that were pressed in a frame.
#[derive(Debug, Clone, Copy, PartialEq, Eq, Structural)]
pub struct Keys {
    pub escape: bool,
    pub space: bool,
    pub up: bool,
    pub down: bool,
    pub left: bool,
    pub right: bool,
    pub enter: bool,
    pub open: bool,
    pub browse: bool,
    pub quit: bool,
    pub zoom_in: bool,
    pub zoom_out: bool,
    pub zoom_reset: bool,
    /// A text box has the keyboard: a space is a space and an arrow moves in it.
    pub typing: bool,
    /// There is something in the search box.
    pub searching: bool,
}

/// Something the user asked for by clicking.
#[derive(Debug, PartialEq)]
pub enum Action {
    /// Show the dialog to open a file with.
    OpenDialog,
    /// Show the browser, or put it away.
    ToggleBrowser,
    /// Put the browser away.
    CloseBrowser,
    /// Paint in this theme, and remember it.
    SetTheme(Theme),
    /// Preview this path.
    Open(FilePath),
    /// List this directory in the browser.
    Descend(FilePath),
    /// List the directory above in the browser.
    Parent,
    /// Show this sheet of the file on screen.
    SetSheet(usize),
}

/// What activating a row of the browser asks for.
pub fn action_of(activate: Activate) -> (r: Action)
    ensures
        match activate {
            Activate::Descend(dir) => r is Descend && r->Descend_0@ == dir@,
            Activate::Preview(path) => r is Open && r->Open_0@ == path@,
        },
{
    match activate {
        Activate::Descend(dir) => Action::Descend(dir),
        Activate::Preview(path) => Action::Open(path),
    }
}

/// What was chosen in the tray menu.
#[derive(Debug)]
pub enum TrayEvent {
    /// Open a file.
    OpenFile,
    /// Preview this recent file.
    Preview(FilePath),
    /// Grab this hotkey instead.
    SetHotkey(String),
    /// End the process.
    Quit,
}

/// What opening a dialog came to.
#[derive(Debug, Clone, Copy)]
pub enum DialogAnswer {
    /// It is up.
    Shown,
    /// It should be, and is not.
    NotStarted,
    /// There is none, and why.
    Unavailable(&'static str),
}

impl DialogAnswer {
    /// An answer, by its text.
    pub open spec fn told(self) -> DialogView {
        match self {
            DialogAnswer::Shown => DialogView::Shown,
            DialogAnswer::NotStarted => DialogView::NotStarted,
            DialogAnswer::Unavailable(s) => DialogView::Unavailable(s@),
        }
    }
}

/// What a window is started with.
#[derive(Debug)]
pub struct Startup {
    /// The requests so far: the preview of `path` is under way already.
    pub tracker: RequestTracker,
    /// The path to show, if any.
    pub path: Option<FilePath>,
    /// How the process was started.
    pub mode: Mode,
    /// Whether stepping past an end comes in at the other.
    pub wrap: bool,
    /// The hotkey that is held, as it is typed.
    pub hotkey_spec: Option<String>,
    /// The theme the user asked for.
    pub theme: Theme,
    /// The shade the desktop gives it.
    pub shade: Shade,
}

// ---------------------------------------------------------------------------
// The window
// ---------------------------------------------------------------------------
/// The window.
#[derive(Debug)]
pub struct SekioApp {
    /// The requests for previews.
    pub tracker: RequestTracker,
    /// The requests for listings, which do not disturb the others.
    pub browse_tracker: RequestTracker,
    /// The files next to the one on screen.
    pub siblings: Siblings,
    /// The path on screen; empty on the home screen.
    pub path: FilePath,
    /// What the middle of the window shows.
    pub screen: Screen,
    /// Whether the window was fitted to this preview.
    pub sized: bool,
    /// Whether stepping past an end comes in at the other.
    pub wrap: bool,
    /// How the process was started, or what it has become since.
    pub mode: Mode,
    /// The shade the window is painted in.
    pub shade: Shade,
    /// The shade code is highlighted for.
    pub highlighted: Shade,
    /// The theme the user asked for.
    pub theme: Theme,
    /// The hotkey that is held, as it is typed.
    pub hotkey_spec: Option<String>,
    /// Whether the process is to end, resident or not.
    pub quitting: bool,
    /// Whether the window is on screen.
    pub visible: bool,
    /// The browser pane.
    pub browser: Browser,
    /// Whether a dialog is up.
    pub dialog_open: bool,
    /// Why there was no dialog the last time.
    pub dialog_note: Option<&'static str>,
    /// The files that were previewed last.
    pub recent: Recent,
    /// Those of them that are still there.
    pub recent_shown: Vec<FilePath>,
    /// How many characters fit across the preview.
    pub text_columns: Option<usize>,
    /// The sheet of the file on screen.
    pub sheet: usize,
    /// The page of the file on screen.
    pub page: usize,
    /// Whether the preview on its way is of the file that is on screen already.
    pub reflowing: bool,
}

/// Requests, by their ids.
pub open spec fn tracker_view(t: RequestTracker) -> TrackerView {
    TrackerView { last: t.last_id(), current: t.current() }
}

/// Neighbours, by their paths.
pub open spec fn siblings_view(s: Siblings) -> SiblingsView {
    SiblingsView { files: s.files(), index: s.index(), wraps: s.wraps() }
}

/// The browser, by what it shows.
pub open spec fn browser_view(b: Browser) -> BrowserView {
    BrowserView {
        open: b.opened(),
        at: b.at(),
        rows: b.rows(),
        place: b.place(),
        waiting: b.waiting(),
        broken: b.broken(),
    }
}

/// The text of an optional note.
pub open spec fn note_text(o: Option<&'static str>) -> Option<Seq<char>> {
    match o {
        Some(s) => Some(s@),
        None => None,
    }
}

impl View for SekioApp {
    type V = AppView;

    open spec fn view(&self) -> AppView {
        AppView {
            tracker: tracker_view(self.tracker),
            browse_tracker: tracker_view(self.browse_tracker),
            siblings: siblings_view(self.siblings),
            path: self.path@,
            screen: self.screen,
            sized: self.sized,
            wrap: self.wrap,
            mode: self.mode,
            shade: self.shade,
            highlighted: self.highlighted,
            theme: self.theme,
            hotkey_spec: text::opt_text(self.hotkey_spec),
            quitting: self.quitting,
            visible: self.visible,
            browser: browser_view(self.browser),
            dialog_open: self.dialog_open,
            dialog_note: note_text(self.dialog_note),
            recent: self.recent@,
            recent_shown: path::path_bytes(self.recent_shown@),
            text_columns: self.text_columns,
            sheet: self.sheet,
            page: self.page,
            reflowing: self.reflowing,
        }
    }
}

fn no_path() -> (r: FilePath)
    ensures
        r@ == PathView::none(),
{
    let none: Vec<u8> = Vec::new();
    FilePath::from_bytes(none)
}

fn no_siblings() -> (r: Siblings)
    ensures
        siblings_view(r) == SiblingsView::none(),
{
    let none: Vec<FilePath> = Vec::new();
    assert(path::path_bytes(none@) =~= Seq::<PathView>::empty());
    Siblings::from_files(none, &no_path(), false)
}

impl SekioApp {
    /// A window. What is under way already is waited for; only a resident process
    /// with nothing to show starts hidden.
    pub fn new(startup: Startup, out: &mut Vec<Command>) -> (r: SekioApp)
        requires
            startup.tracker.wf(),
        ensures
            r@.wf(),
            r@ == (AppView {
                tracker: tracker_view(startup.tracker),
                browse_tracker: TrackerView { last: 0, current: None },
                siblings: SiblingsView::none(),
                path: match startup.path {
                    Some(p) => p@,
                    None => PathView::none(),
                },
                screen: if startup.path is Some {
                    Screen::Loading
                } else {
                    Screen::Home
                },
                sized: false,
                wrap: startup.wrap,
                mode: startup.mode,
                shade: startup.shade,
                highlighted: Shade::Dark,
                theme: startup.theme,
                hotkey_spec: text::opt_text(startup.hotkey_spec),
                quitting: false,
                visible: startup.path is Some || startup.mode != Mode::Daemon,
                browser: BrowserView {
                    open: false,
                    at: PathView::none(),
                    rows: Seq::empty(),
                    place: 0,
                    waiting: false,
                    broken: false,
                },
                dialog_open: false,
                dialog_note: None,
                recent: Seq::empty(),
                recent_shown: Seq::empty(),
                text_columns: None,
                sheet: 0,
                page: 0,
                reflowing: false,
            }),
            commands(final(out)@) == (match startup.path {
                Some(p) => commands(old(out)@).push(CommandView::Scan(p@)),
                None => commands(old(out)@),
            }),
    {
        let loaded = startup.path.is_some();
        let path = match startup.path {
            Some(path) => {
                emit(out, Command::Scan(path.copy()));
                path
            },
            None => no_path(),
        };
        let none: Vec<FilePath> = Vec::new();
        assert(path::path_bytes(none@) =~= Seq::<PathView>::empty());
        SekioApp {
            tracker: startup.tracker,
            browse_tracker: RequestTracker::new(),
            siblings: no_siblings(),
            path,
            screen: if loaded {
                Screen::Loading
            } else {
                Screen::Home
            },
            sized: false,
            wrap: startup.wrap,
            mode: startup.mode,
            shade: startup.shade,
            highlighted: Shade::Dark,
            theme: startup.theme,
            hotkey_spec: startup.hotkey_spec,
            quitting: false,
            visible: loaded || startup.mode != Mode::Daemon,
            browser: Browser::new(),
            dialog_open: false,
            dialog_note: None,
            recent: Recent::new(),
            recent_shown: none,
            text_columns: None,
            sheet: 0,
            page: 0,
            reflowing: false,
        }
    }

    /// The path on screen; none on the home screen.
    pub fn current(&self) -> (r: Option<&FilePath>)
        ensures
            r is Some <==> self@.path.len() > 0,
            r is Some ==> r->0@ == self@.path,
    {
        if self.path.is_empty() {
            None
        } else {
            Some(&self.path)
        }
    }

    /// Whether there are ids enough for another frame.
    pub fn can_go_on(&self) -> (r: bool)
        ensures
            r == self@.has_ids(FRAME_IDS as int),
    {
        self.tracker.last() <= u64::MAX - FRAME_IDS && self.browse_tracker.last() <= u64::MAX
            - FRAME_IDS
    }
}

/// Whether a step was taken: from where it starts to where it leads, with what is
/// to be done added to the list.
pub open spec fn took(
    step: Step,
    now: AppView,
    before: Seq<CommandView>,
    list: Seq<CommandView>,
) -> bool {
    now == step.0 && list == before + step.1
}

/// The last of some paths.
pub open spec fn newest(paths: Seq<FilePath>) -> Option<PathView> {
    if paths.len() == 0 {
        None
    } else {
        Some(paths.last()@)
    }
}

/// The last path among some answers.
pub open spec fn chosen(answers: Seq<Option<FilePath>>) -> Option<PathView>
    decreases answers.len(),
{
    if answers.len() == 0 {
        None
    } else if answers.last() is Some {
        path::opt_path(answers.last())
    } else {
        chosen(answers.drop_last())
    }
}

// ---------------------------------------------------------------------------
// Requests
// ---------------------------------------------------------------------------
impl SekioApp {
    /// Asks for the preview of the current path. What was in flight is cancelled.
    pub fn send_preview(&mut self, out: &mut Vec<Command>)
        requires
            old(self)@.wf(),
            old(self)@.has_ids(1),
        ensures
            final(self)@.wf(),
            took(old(self)@.sent(), final(self)@, commands(old(out)@), commands(final(out)@)),
    {
        let (id, cancelled) = self.tracker.begin();
        match cancelled {
            Some(old_id) => {
                emit(out, Command::Cancel(Kind::Preview, old_id));
            },
            None => {},
        }
        emit(
            out,
            Command::Preview {
                id,
                path: self.path.copy(),
                text_width: self.text_columns,
                sheet: self.sheet,
                page: self.page,
            },
        );
        assert(commands(out@) =~= commands(old(out)@) + old(self)@.sent().1);
    }

    /// Asks for the preview of a path that was gone to.
    pub fn request_current(&mut self, out: &mut Vec<Command>)
        requires
            old(self)@.wf(),
            old(self)@.has_ids(1),
        ensures
            final(self)@.wf(),
            took(old(self)@.requested(), final(self)@, commands(old(out)@), commands(final(out)@)),
    {
        self.reflowing = false;
        self.send_preview(out);
    }

    /// Asks for the preview of the path on screen once more. What is on screen
    /// stays there until it comes.
    pub fn request_reflow(&mut self, out: &mut Vec<Command>)
        requires
            old(self)@.wf(),
            old(self)@.has_ids(1),
        ensures
            final(self)@.wf(),
            took(old(self)@.reflowed(), final(self)@, commands(old(out)@), commands(final(out)@)),
    {
        self.reflowing = true;
        self.send_preview(out);
    }

    /// Asks for the listing of the browser's directory.
    pub fn request_listing(&mut self, out: &mut Vec<Command>)
        requires
            old(self)@.wf(),
            old(self)@.has_ids(1),
        ensures
            final(self)@.wf(),
            took(old(self)@.listed(), final(self)@, commands(old(out)@), commands(final(out)@)),
    {
        let (id, cancelled) = self.browse_tracker.begin();
        match cancelled {
            Some(old_id) => {
                emit(out, Command::Cancel(Kind::Browse, old_id));
            },
            None => {},
        }
        emit(out, Command::List { id, path: self.browser.dir().copy() });
        assert(commands(out@) =~= commands(old(out)@) + old(self)@.listed().1);
    }

    /// Cancels whatever is in flight.
    pub fn stop(&mut self, out: &mut Vec<Command>)
        requires
            old(self)@.wf(),
        ensures
            final(self)@.wf(),
            took(old(self)@.stopped(), final(self)@, commands(old(out)@), commands(final(out)@)),
    {
        match self.tracker.cancel_all() {
            Some(id) => {
                emit(out, Command::Cancel(Kind::Preview, id));
            },
            None => {},
        }
        match self.browse_tracker.cancel_all() {
            Some(id) => {
                emit(out, Command::Cancel(Kind::Browse, id));
            },
            None => {},
        }
        assert(commands(out@) =~= commands(old(out)@) + old(self)@.stopped().1);
    }
}

// ---------------------------------------------------------------------------
// The browser
// ---------------------------------------------------------------------------
impl SekioApp {
    /// Goes to `dir` in the browser.
    pub fn browse(&mut self, dir: FilePath, out: &mut Vec<Command>)
        requires
            old(self)@.wf(),
            old(self)@.has_ids(1),
        ensures
            final(self)@.wf(),
            took(
                old(self)@.browsed(dir@),
                final(self)@,
                commands(old(out)@),
                commands(final(out)@),
            ),
    {
        self.browser.show(dir);
        self.request_listing(out);
    }

    /// Goes up in the browser, where there is an up.
    pub fn ascend(&mut self, out: &mut Vec<Command>)
        requires
            old(self)@.wf(),
            old(self)@.has_ids(1),
        ensures
            final(self)@.wf(),
            took(old(self)@.ascended(), final(self)@, commands(old(out)@), commands(final(out)@)),
    {
        match self.browser.parent() {
            Some(dir) => {
                self.browse(dir, out);
            },
            None => {
                assert(commands(out@) =~= commands(old(out)@) + old(self)@.ascended().1);
            },
        }
    }

    /// Shows the browser or puts it away. It opens where it was, or at `start`
    /// where it was nowhere yet.
    pub fn toggle_browser(&mut self, start: FilePath, out: &mut Vec<Command>)
        requires
            old(self)@.wf(),
            old(self)@.has_ids(1),
        ensures
            final(self)@.wf(),
            took(
                old(self)@.toggled(start@),
                final(self)@,
                commands(old(out)@),
                commands(final(out)@),
            ),
    {
        if self.browser.is_open() {
            self.browser.close();
            assert(commands(out@) =~= commands(old(out)@) + Seq::<CommandView>::empty());
        } else if self.browser.dir().is_empty() {
            self.browse(start, out);
        } else {
            self.browser.reopen();
            self.request_listing(out);
        }
    }

    /// Takes the row under the selection: a directory is gone to, a file opened.
    pub fn activate(&mut self, out: &mut Vec<Command>)
        requires
            old(self)@.wf(),
            old(self)@.has_ids(1),
        ensures
            final(self)@.wf(),
            took(old(self)@.activated(), final(self)@, commands(old(out)@), commands(final(out)@)),
    {
        let place = self.browser.cursor();
        match self.browser.activate(place) {
            Some(Activate::Descend(dir)) => {
                self.browse(dir, out);
            },
            Some(Activate::Preview(path)) => {
                emit(out, Command::Open(path));
                assert(commands(out@) =~= commands(old(out)@) + old(self)@.activated().1);
            },
            None => {
                assert(commands(out@) =~= commands(old(out)@) + old(self)@.activated().1);
            },
        }
    }

    /// A row of the browser was clicked.
    pub fn click(&mut self, index: usize, out: &mut Vec<Command>)
        requires
            old(self)@.wf(),
            old(self)@.has_ids(1),
            index < old(self)@.browser.rows.len(),
        ensures
            final(self)@.wf(),
            took(
                (AppView {
                    browser: (BrowserView { place: index as int, ..old(self)@.browser }),
                    ..old(self)@
                }).activated(),
                final(self)@,
                commands(old(out)@),
                commands(final(out)@),
            ),
    {
        self.browser.select(index);
        self.activate(out);
    }

    /// Uses the browser in place of a dialog, and says why.
    pub fn fall_back(&mut self, reason: &'static str, start: FilePath, out: &mut Vec<Command>)
        requires
            old(self)@.wf(),
            old(self)@.has_ids(1),
        ensures
            final(self)@.wf(),
            took(
                old(self)@.fallen_back(reason@, start@),
                final(self)@,
                commands(old(out)@),
                commands(final(out)@),
            ),
    {
        self.dialog_note = Some(reason);
        self.browse(start, out);
    }

    /// Whether a dialog may be shown: one at a time.
    pub fn wants_dialog(&self) -> (r: bool)
        ensures
            r == !self@.dialog_open,
    {
        !self.dialog_open
    }

    /// A dialog was to be shown, and this is what came of it. Where there is none,
    /// the browser takes its place and opens at `start`.
    pub fn open_dialog(&mut self, answer: DialogAnswer, start: FilePath, out: &mut Vec<Command>)
        requires
            old(self)@.wf(),
            old(self)@.has_ids(1),
        ensures
            final(self)@.wf(),
            took(
                old(self)@.dialog_answered(answer.told(), start@),
                final(self)@,
                commands(old(out)@),
                commands(final(out)@),
            ),
    {
        if self.dialog_open {
            assert(commands(out@) =~= commands(old(out)@) + Seq::<CommandView>::empty());
            return;
        }
        match answer {
            DialogAnswer::Shown => {
                self.dialog_open = true;
                self.dialog_note = None;
                assert(commands(out@) =~= commands(old(out)@) + Seq::<CommandView>::empty());
            },
            DialogAnswer::NotStarted => {
                self.fall_back(
                    "could not start the file dialog — using the built-in browser",
                    start,
                    out,
                );
            },
            DialogAnswer::Unavailable(reason) => {
                self.fall_back(reason, start, out);
            },
        }
    }
}

// ---------------------------------------------------------------------------
// Showing and putting away
// ---------------------------------------------------------------------------
impl SekioApp {
    /// Shows a path.
    pub fn show(&mut self, path: FilePath, out: &mut Vec<Command>)
        requires
            old(self)@.wf(),
            old(self)@.has_ids(1),
        ensures
            final(self)@.wf(),
            took(
                old(self)@.shown(path@),
                final(self)@,
                commands(old(out)@),
                commands(final(out)@),
            ),
    {
        let ghost had = commands(out@);
        let ghost was = self@;
        let scanned = path.copy();
        let title = title(&path);
        self.path = path;
        self.siblings = no_siblings();
        self.screen = Screen::Loading;
        self.sheet = 0;
        self.page = 0;
        self.sized = false;
        emit(out, Command::Scan(scanned));
        emit(out, Command::ResetZoom);
        assert(commands(out@) =~= had + seq![CommandView::Scan(path@), CommandView::ResetZoom]);
        self.request_current(out);
        emit(out, Command::Title(title));
        if !self.visible {
            self.visible = true;
            emit(out, Command::Visible(true));
        }
        emit(out, Command::Focus);
        assert(commands(out@) =~= had + was.shown(path@).1);
    }

    /// Shows a path that the user opened through the window. The window is no popup
    /// any more.
    pub fn open(&mut self, path: FilePath, out: &mut Vec<Command>)
        requires
            old(self)@.wf(),
            old(self)@.has_ids(1),
        ensures
            final(self)@.wf(),
            took(
                old(self)@.opened(path@),
                final(self)@,
                commands(old(out)@),
                commands(final(out)@),
            ),
    {
        self.mode = self.mode.promoted();
        self.dialog_note = None;
        self.show(path, out);
    }

    /// Brings the window up as it is.
    pub fn bring_up(&mut self, out: &mut Vec<Command>)
        requires
            old(self)@.wf(),
        ensures
            final(self)@.wf(),
            took(old(self)@.revealed(), final(self)@, commands(old(out)@), commands(final(out)@)),
    {
        if !self.visible {
            self.visible = true;
            emit(out, Command::Visible(true));
        }
        emit(out, Command::Focus);
        assert(commands(out@) =~= commands(old(out)@) + old(self)@.revealed().1);
    }

    /// Drops the preview and goes back to the home screen.
    pub fn go_home(&mut self, out: &mut Vec<Command>)
        requires
            old(self)@.wf(),
        ensures
            final(self)@.wf(),
            took(old(self)@.at_home(), final(self)@, commands(old(out)@), commands(final(out)@)),
    {
        match self.tracker.cancel_all() {
            Some(id) => {
                emit(out, Command::Cancel(Kind::Preview, id));
            },
            None => {},
        }
        self.screen = Screen::Home;
        self.path = no_path();
        self.siblings = no_siblings();
        self.sheet = 0;
        self.page = 0;
        self.sized = false;
        emit(out, Command::ResetZoom);
        emit(out, Command::RefreshRecent);
        emit(out, Command::ResetScale);
        emit(out, Command::Title("sekio".to_owned()));
        assert(commands(out@) =~= commands(old(out)@) + old(self)@.at_home().1);
    }

    /// Escape, or Space. What it does depends on how the process was started.
    pub fn dismiss(&mut self, out: &mut Vec<Command>)
        requires
            old(self)@.wf(),
        ensures
            final(self)@.wf(),
            took(old(self)@.dismissed(), final(self)@, commands(old(out)@), commands(final(out)@)),
    {
        match close_action(self.mode, self.screen.is_showing()) {
            Close::Window => {
                self.stop(out);
                emit(out, Command::Close);
                assert(commands(out@) =~= commands(old(out)@) + old(self)@.dismissed().1);
            },
            Close::Hide => {
                self.stop(out);
                self.screen = Screen::Home;
                self.path = no_path();
                self.siblings = no_siblings();
                self.sheet = 0;
                self.page = 0;
                self.browser.close();
                self.visible = false;
                emit(out, Command::ResetZoom);
                emit(out, Command::Visible(false));
                assert(commands(out@) =~= commands(old(out)@) + old(self)@.dismissed().1);
            },
            Close::Home => {
                self.go_home(out);
            },
            Close::Nothing => {
                assert(commands(out@) =~= commands(old(out)@) + old(self)@.dismissed().1);
            },
        }
    }

    /// Ends the window. A resident process only hides it.
    pub fn quit(&mut self, out: &mut Vec<Command>)
        requires
            old(self)@.wf(),
        ensures
            final(self)@.wf(),
            took(old(self)@.quit(), final(self)@, commands(old(out)@), commands(final(out)@)),
    {
        if self.mode == Mode::Daemon {
            self.dismiss(out);
            return;
        }
        self.stop(out);
        emit(out, Command::Close);
        assert(commands(out@) =~= commands(old(out)@) + old(self)@.quit().1);
    }

    /// The window manager was asked to close the window. A resident process hides
    /// it instead, unless it is to end.
    pub fn handle_close_request(&mut self, out: &mut Vec<Command>)
        requires
            old(self)@.wf(),
        ensures
            final(self)@.wf(),
            took(
                old(self)@.close_asked(),
                final(self)@,
                commands(old(out)@),
                commands(final(out)@),
            ),
    {
        if self.quitting || self.mode != Mode::Daemon {
            assert(commands(out@) =~= commands(old(out)@) + Seq::<CommandView>::empty());
            return;
        }
        emit(out, Command::CancelClose);
        self.dismiss(out);
        assert(commands(out@) =~= commands(old(out)@) + old(self)@.close_asked().1);
    }

    /// Goes `delta` files on, where there is a file.
    pub fn navigate(&mut self, delta: isize, out: &mut Vec<Command>)
        requires
            old(self)@.wf(),
            old(self)@.has_ids(1),
        ensures
            final(self)@.wf(),
            took(
                old(self)@.navigated(delta as int),
                final(self)@,
                commands(old(out)@),
                commands(final(out)@),
            ),
    {
        match self.siblings.step(delta) {
            Some(next) => {
                self.path = next;
                self.screen = Screen::Loading;
                self.sheet = 0;
                self.page = 0;
                emit(out, Command::ResetZoom);
                self.request_current(out);
                assert(commands(out@) =~= commands(old(out)@) + old(self)@.navigated(
                    delta as int,
                ).1);
            },
            None => {
                assert(commands(out@) =~= commands(old(out)@) + Seq::<CommandView>::empty());
            },
        }
    }

    /// The files next to `path` were found. They are taken where it is still the
    /// path on screen.
    pub fn take_siblings(&mut self, path: &FilePath, siblings: Siblings)
        requires
            old(self)@.wf(),
            siblings.wf(),
        ensures
            final(self)@.wf(),
            final(self)@ == (if path::same_path(path@, old(self)@.path) {
                AppView { siblings: siblings_view(siblings), ..old(self)@ }
            } else {
                old(self)@
            }),
    {
        if path.same(&self.path) {
            self.siblings = siblings;
        }
    }
}

// ---------------------------------------------------------------------------
// Keys and clicks
// ---------------------------------------------------------------------------
impl SekioApp {
    /// Whether these keys open a dialog.
    pub fn keys_ask_dialog(&self, keys: Keys) -> (r: bool)
        ensures
            r == (keys.open && !keys.quit && !self@.dialog_open),
    {
        keys.open && !keys.quit && !self.dialog_open
    }

    #[verifier::spinoff_prover]
    fn move_selection(&mut self, keys: Keys)
        requires
            old(self)@.wf(),
        ensures
            final(self)@.wf(),
            final(self)@ == old(self)@.selected_by(keys),
    {
        if keys.up {
            self.move_place(-1);
        }
        if keys.down {
            self.move_place(1);
        }
    }

    fn move_place(&mut self, delta: isize)
        requires
            old(self)@.wf(),
        ensures
            final(self)@.wf(),
            final(self)@ == old(self)@.place_moved(delta as int),
    {
        self.browser.move_cursor(delta);
    }

    fn steer_browser(&mut self, keys: Keys, out: &mut Vec<Command>)
        requires
            old(self)@.wf(),
            old(self)@.has_ids(2),
        ensures
            final(self)@.wf(),
            took(
                old(self)@.browser_steered(keys),
                final(self)@,
                commands(old(out)@),
                commands(final(out)@),
            ),
    {
        let ghost had = commands(out@);
        let ghost was = self@;
        self.move_selection(keys);
        let ghost b = was.selected_by(keys);
        if keys.left && !keys.typing {
            self.ascend(out);
        } else {
            assert(commands(out@) =~= had + Seq::<CommandView>::empty());
        }
        let ghost c = if keys.left && !keys.typing {
            b.ascended()
        } else {
            b.unchanged()
        };
        assert(took(c, self@, had, commands(out@)));
        if (keys.right && !keys.typing) || keys.enter {
            self.activate(out);
            assert(commands(out@) =~= had + model::after(c.1, c.0.activated()).1);
        }
    }

    fn steer(&mut self, keys: Keys, out: &mut Vec<Command>)
        requires
            old(self)@.wf(),
            old(self)@.has_ids(2),
        ensures
            final(self)@.wf(),
            took(
                old(self)@.steered(keys),
                final(self)@,
                commands(old(out)@),
                commands(final(out)@),
            ),
    {
        if self.browser.is_open() {
            self.steer_browser(keys, out);
        } else if keys.left || keys.up {
            self.navigate(-1, out);
        } else if keys.right || keys.down {
            self.navigate(1, out);
        } else {
            assert(commands(out@) =~= commands(old(out)@) + Seq::<CommandView>::empty());
        }
    }

    #[verifier::spinoff_prover]
    #[verifier::rlimit(30)]
    fn move_by(&mut self, keys: Keys, out: &mut Vec<Command>)
        requires
            old(self)@.wf(),
            old(self)@.has_ids(2),
        ensures
            final(self)@.wf(),
            took(
                old(self)@.moved_by(keys),
                final(self)@,
                commands(old(out)@),
                commands(final(out)@),
            ),
    {
        proof {
            reveal(AppView::moved_by);
        }
        self.steer(keys, out);
        if keys.zoom_in {
            emit(out, Command::ZoomIn);
        }
        if keys.zoom_out {
            emit(out, Command::ZoomOut);
        }
        if keys.zoom_reset {
            emit(out, Command::ResetZoom);
            emit(out, Command::ResetScale);
        }
        assert(commands(out@) =~= commands(old(out)@) + old(self)@.moved_by(keys).1);
    }

    fn escape(&mut self, keys: Keys, out: &mut Vec<Command>)
        requires
            old(self)@.wf(),
            old(self)@.has_ids(2),
        ensures
            final(self)@.wf(),
            took(
                old(self)@.escaped(keys),
                final(self)@,
                commands(old(out)@),
                commands(final(out)@),
            ),
    {
        if keys.escape && self.browser.is_open() {
            if keys.searching {
                emit(out, Command::ClearSearch);
            } else {
                self.browser.close();
            }
            self.move_by(keys, out);
            assert(commands(out@) =~= commands(old(out)@) + old(self)@.escaped(keys).1);
        } else if keys.escape || (keys.space && !keys.typing) {
            self.dismiss(out);
        } else {
            self.move_by(keys, out);
        }
    }

    /// The keys of a frame. `answer` is what became of the dialog that they ask
    /// for, and `start` where the browser opens.
    #[verifier::spinoff_prover]
    #[verifier::rlimit(30)]
    pub fn handle_keys(
        &mut self,
        keys: Keys,
        answer: DialogAnswer,
        start: FilePath,
        out: &mut Vec<Command>,
    )
        requires
            old(self)@.wf(),
            old(self)@.has_ids(4),
        ensures
            final(self)@.wf(),
            took(
                old(self)@.keyed(keys, answer.told(), start@),
                final(self)@,
                commands(old(out)@),
                commands(final(out)@),
            ),
    {
        if keys.quit {
            self.quit(out);
            return;
        }
        let ghost had = commands(out@);
        let ghost was = self@;
        if keys.open {
            self.open_dialog(answer, start.copy(), out);
        } else {
            assert(commands(out@) =~= had + Seq::<CommandView>::empty());
        }
        let ghost a = if keys.open {
            was.dialog_answered(answer.told(), start@)
        } else {
            was.unchanged()
        };
        assert(took(a, self@, had, commands(out@)));
        if keys.browse {
            self.toggle_browser(start, out);
        }
        let ghost b = if keys.browse {
            model::after(a.1, a.0.toggled(start@))
        } else {
            a
        };
        assert(commands(out@) =~= had + b.1);
        self.escape(keys, out);
        assert(commands(out@) =~= had + was.keyed(keys, answer.told(), start@).1);
    }

    /// Something was clicked. `start` is where the browser opens.
    pub fn apply(&mut self, action: Action, start: FilePath, out: &mut Vec<Command>)
        requires
            old(self)@.wf(),
            old(self)@.has_ids(1),
        ensures
            final(self)@.wf(),
            took(
                match action {
                    Action::OpenDialog => (old(self)@, seq![CommandView::AskDialog]),
                    Action::ToggleBrowser => old(self)@.toggled(start@),
                    Action::CloseBrowser => (AppView {
                        browser: old(self)@.browser.closed(),
                        ..old(self)@
                    }).unchanged(),
                    Action::SetTheme(theme) => old(self)@.themed(theme),
                    Action::Open(path) => (old(self)@, seq![CommandView::Open(path@)]),
                    Action::Descend(dir) => old(self)@.browsed(dir@),
                    Action::Parent => old(self)@.ascended(),
                    Action::SetSheet(sheet) => old(self)@.with_sheet(sheet),
                },
                final(self)@,
                commands(old(out)@),
                commands(final(out)@),
            ),
    {
        let ghost had = commands(out@);
        match action {
            Action::OpenDialog => {
                emit(out, Command::AskDialog);
                assert(commands(out@) =~= had + seq![CommandView::AskDialog]);
            },
            Action::ToggleBrowser => {
                self.toggle_browser(start, out);
            },
            Action::CloseBrowser => {
                self.browser.close();
                assert(commands(out@) =~= had + Seq::<CommandView>::empty());
            },
            Action::SetTheme(theme) => {
                self.set_theme(theme, out);
            },
            Action::Open(path) => {
                let ghost b = path@;
                emit(out, Command::Open(path));
                assert(commands(out@) =~= had + seq![CommandView::Open(b)]);
            },
            Action::Descend(dir) => {
                self.browse(dir, out);
            },
            Action::Parent => {
                self.ascend(out);
            },
            Action::SetSheet(sheet) => {
                self.set_sheet(sheet, out);
            },
        }
    }

    /// Shows another sheet of the file on screen.
    pub fn set_sheet(&mut self, sheet: usize, out: &mut Vec<Command>)
        requires
            old(self)@.wf(),
            old(self)@.has_ids(1),
        ensures
            final(self)@.wf(),
            took(
                old(self)@.with_sheet(sheet),
                final(self)@,
                commands(old(out)@),
                commands(final(out)@),
            ),
    {
        if self.sheet == sheet {
            assert(commands(out@) =~= commands(old(out)@) + Seq::<CommandView>::empty());
            return;
        }
        self.sheet = sheet;
        self.send_preview(out);
    }

    /// Whether a picture is on screen.
    pub fn has_image(&self) -> (r: bool)
        ensures
            r == (match self@.screen {
                Screen::Ready(shown) => shown.loaded.pictured,
                _ => false,
            }),
    {
        match &self.screen {
            Screen::Ready(shown) => shown.loaded.pictured,
            _ => false,
        }
    }

    /// The page on screen, counted from 0, and how many there are.
    pub fn pages(&self) -> (r: Option<(usize, usize)>)
        ensures
            layout::pair(r) == (match self@.screen {
                Screen::Ready(shown) => layout::pages_of(shown.loaded.content),
                _ => None,
            }),
    {
        match &self.screen {
            Screen::Ready(shown) => paged(&shown.loaded.content),
            _ => None,
        }
    }

    /// The wheel was turned over a picture, `forward` being towards the end, with
    /// the key held that zooms or without. Pages are turned where there are pages;
    /// everything else is zoomed.
    pub fn handle_wheel(&mut self, forward: bool, zooming: bool, out: &mut Vec<Command>)
        requires
            old(self)@.wf(),
            old(self)@.has_ids(1),
        ensures
            final(self)@.wf(),
            took(
                old(self)@.wheeled(forward, zooming),
                final(self)@,
                commands(old(out)@),
                commands(final(out)@),
            ),
    {
        let ghost had = commands(out@);
        match self.pages() {
            Some((current, total)) => {
                if zooming {
                    emit(out, Command::ZoomByWheel);
                    assert(commands(out@) =~= had + seq![CommandView::ZoomByWheel]);
                    return;
                }
                proof {
                    match self@.screen {
                        Screen::Ready(shown) => layout::lemma_page_below_max(shown.loaded.content),
                        _ => {},
                    }
                }
                match next_page(current, total, forward) {
                    Some(next) => {
                        self.page = next;
                        self.send_preview(out);
                    },
                    None => {
                        assert(commands(out@) =~= had + Seq::<CommandView>::empty());
                    },
                }
            },
            None => {
                emit(out, Command::ZoomByWheel);
                assert(commands(out@) =~= had + seq![CommandView::ZoomByWheel]);
            },
        }
    }
}

// ---------------------------------------------------------------------------
// Answers
// ---------------------------------------------------------------------------
impl SekioApp {
    fn fit(&mut self, content: &PreviewContent, out: &mut Vec<Command>)
        requires
            old(self)@.wf(),
        ensures
            final(self)@.wf(),
            took(
                old(self)@.fitted(*content),
                final(self)@,
                commands(old(out)@),
                commands(final(out)@),
            ),
    {
        if !self.sized && self.mode != Mode::App && !self.browser.is_open() {
            self.sized = true;
            emit(out, Command::Fit(desired_size(content)));
        }
        assert(commands(out@) =~= commands(old(out)@) + old(self)@.fitted(*content).1);
    }

    fn remember(&mut self, path: &FilePath, out: &mut Vec<Command>)
        requires
            old(self)@.wf(),
        ensures
            final(self)@.wf(),
            took(
                old(self)@.remembered(path@),
                final(self)@,
                commands(old(out)@),
                commands(final(out)@),
            ),
    {
        if self.recent.add(path) {
            emit(out, Command::SaveRecent);
            emit(out, Command::RefreshRecent);
        }
        assert(commands(out@) =~= commands(old(out)@) + old(self)@.remembered(path@).1);
    }

    #[verifier::spinoff_prover]
    #[verifier::rlimit(30)]
    fn take(&mut self, response: Response, reflowing: bool, out: &mut Vec<Command>)
        requires
            old(self)@.wf(),
        ensures
            final(self)@.wf(),
            took(
                old(self)@.taken(
                    response.id,
                    response.path@,
                    response.outcome,
                    response.elapsed_ms,
                    reflowing,
                ),
                final(self)@,
                commands(old(out)@),
                commands(final(out)@),
            ),
    {
        let ghost had = commands(out@);
        let ghost was = self@;
        match response.outcome {
            Outcome::Ready(loaded) => {
                self.fit(&loaded.content, out);
                let ghost a = was.fitted(loaded.content);
                self.remember(&response.path, out);
                let ghost b = model::after(a.1, a.0.remembered(response.path@));
                assert(commands(out@) =~= had + b.1);
                assert(self@ == b.0);
                self.screen = Screen::Ready(
                    Shown { id: response.id, loaded, elapsed_ms: response.elapsed_ms },
                );
            },
            Outcome::Failed(message) => {
                self.screen = Screen::Failed(message);
                assert(commands(out@) =~= had + Seq::<CommandView>::empty());
            },
            Outcome::Cancelled => {
                if !reflowing {
                    self.screen = Screen::Loading;
                }
                assert(commands(out@) =~= had + Seq::<CommandView>::empty());
            },
        }
    }

    /// A preview came. One that is not waited for any more is dropped.
    pub fn accept_preview(&mut self, response: Response, out: &mut Vec<Command>)
        requires
            old(self)@.wf(),
        ensures
            final(self)@.wf(),
            took(
                old(self)@.previewed(
                    response.id,
                    response.path@,
                    response.outcome,
                    response.elapsed_ms,
                ),
                final(self)@,
                commands(old(out)@),
                commands(final(out)@),
            ),
    {
        let ghost had = commands(out@);
        let ghost was = self@;
        let ghost step = was.previewed(
            response.id,
            response.path@,
            response.outcome,
            response.elapsed_ms,
        );
        if !self.tracker.accept(response.id) {
            assert(commands(out@) =~= had + Seq::<CommandView>::empty());
            return;
        }
        let reflowing = self.reflowing;
        self.reflowing = false;
        let title = title(&response.path);
        let ghost next = AppView { tracker: was.tracker.idle(), reflowing: false, ..was };
        assert(self@ == next);
        self.take(response, reflowing, out);
        emit(out, Command::Title(title));
        assert(commands(out@) =~= had + step.1);
    }

    /// A listing for the browser came. One that is not waited for any more is
    /// dropped.
    #[verifier::spinoff_prover]
    #[verifier::rlimit(30)]
    pub fn accept_listing(&mut self, response: Response)
        requires
            old(self)@.wf(),
        ensures
            final(self)@.wf(),
            final(self)@ == old(self)@.listing_came(
                response.id,
                response.path@,
                response.outcome,
            ),
    {
        let ghost was = self@;
        if !self.browse_tracker.accept(response.id) {
            assert(self@ == was);
            return;
        }
        assert(self@ == (AppView { browse_tracker: was.browse_tracker.idle(), ..was }));
        match response.outcome {
            Outcome::Ready(loaded) => match loaded.content {
                PreviewContent::Listing { entries } => {
                    self.fill_browser(&response.path, entries);
                },
                _ => {
                    self.fail_browser(&response.path);
                },
            },
            Outcome::Failed(_) => {
                self.fail_browser(&response.path);
            },
            Outcome::Cancelled => {},
        }
    }

    fn fill_browser(&mut self, dir: &FilePath, entries: Vec<ListEntry>)
        requires
            old(self)@.wf(),
        ensures
            final(self)@.wf(),
            final(self)@ == (AppView {
                browser: old(self)@.browser.filled(dir@, entries@),
                ..old(self)@
            }),
    {
        self.browser.fill(dir, entries);
    }

    fn fail_browser(&mut self, dir: &FilePath)
        requires
            old(self)@.wf(),
        ensures
            final(self)@.wf(),
            final(self)@ == (AppView {
                browser: old(self)@.browser.failed(dir@),
                ..old(self)@
            }),
    {
        self.browser.fail(dir);
    }

    /// The shade that the theme comes to now. Where it has changed, text is laid
    /// out anew, and code highlighted anew.
    #[verifier::spinoff_prover]
    #[verifier::rlimit(30)]
    pub fn poll_theme(&mut self, shade: Shade, out: &mut Vec<Command>)
        requires
            old(self)@.wf(),
            old(self)@.has_ids(1),
        ensures
            final(self)@.wf(),
            took(
                old(self)@.shaded(shade),
                final(self)@,
                commands(old(out)@),
                commands(final(out)@),
            ),
    {
        let ghost had = commands(out@);
        let ghost was = self@;
        if shade != self.shade {
            self.shade = shade;
            match &self.screen {
                Screen::Ready(_) => {
                    emit(out, Command::DropLayout);
                },
                _ => {},
            }
        }
        if shade != self.highlighted {
            self.highlighted = shade;
            emit(out, Command::Highlight(shade));
            if !self.path.is_empty() {
                self.request_reflow(out);
            }
        }
        assert(commands(out@) =~= had + was.shaded(shade).1);
    }

    /// Paints in `theme` from now on, and remembers it.
    pub fn set_theme(&mut self, theme: Theme, out: &mut Vec<Command>)
        requires
            old(self)@.wf(),
        ensures
            final(self)@.wf(),
            took(
                old(self)@.themed(theme),
                final(self)@,
                commands(old(out)@),
                commands(final(out)@),
            ),
    {
        if self.theme != theme {
            self.theme = theme;
            emit(out, Command::InstallTheme(theme));
            emit(out, Command::SaveTheme(theme));
        }
        assert(commands(out@) =~= commands(old(out)@) + old(self)@.themed(theme).1);
    }

    /// How many characters fit across the preview, as the last frame measured it.
    pub fn measured(&mut self, columns: Option<usize>)
        requires
            old(self)@.wf(),
        ensures
            final(self)@.wf(),
            final(self)@ == (AppView { text_columns: columns, ..old(self)@ }),
    {
        self.text_columns = columns;
    }

    /// The width that a preview on screen could be laid out for anew; none where
    /// there is none, or it is the same at any width.
    pub fn reflowable(&self) -> (r: Option<usize>)
        ensures
            r == (if self@.reflows() {
                self@.text_columns
            } else {
                None
            }),
    {
        match &self.screen {
            Screen::Ready(shown) => if needs_relayout(&shown.loaded.content) {
                self.text_columns
            } else {
                None
            },
            _ => None,
        }
    }

    /// Asks for the preview anew where its width has changed and `settled`. Where
    /// it has changed and not settled, another look is to be taken later. `laid`
    /// is the width that the preview on screen was laid out for. Returns whether a
    /// request went out.
    pub fn poll_reflow(&mut self, settled: bool, laid: usize, out: &mut Vec<Command>) -> (r: bool)
        requires
            old(self)@.wf(),
            old(self)@.has_ids(1),
        ensures
            final(self)@.wf(),
            r == (old(self)@.reflows() && settled),
            took(
                if !old(self)@.reflows() {
                    old(self)@.unchanged()
                } else if settled {
                    old(self)@.reflowed()
                } else if distance(old(self)@.text_columns->0 as int, laid as int)
                    >= REFLOW_THRESHOLD {
                    (old(self)@, seq![CommandView::RepaintLater])
                } else {
                    old(self)@.unchanged()
                },
                final(self)@,
                commands(old(out)@),
                commands(final(out)@),
            ),
    {
        let ghost had = commands(out@);
        match self.reflowable() {
            Some(width) => {
                if settled {
                    self.request_reflow(out);
                    return true;
                }
                let by: usize = if width >= laid {
                    width - laid
                } else {
                    laid - width
                };
                if by >= REFLOW_THRESHOLD {
                    emit(out, Command::RepaintLater);
                    assert(commands(out@) =~= had + seq![CommandView::RepaintLater]);
                } else {
                    assert(commands(out@) =~= had + Seq::<CommandView>::empty());
                }
                false
            },
            None => {
                assert(commands(out@) =~= had + Seq::<CommandView>::empty());
                false
            },
        }
    }

    /// Paths were handed over by other processes. Only the newest is shown.
    pub fn poll_incoming(&mut self, paths: Vec<FilePath>, out: &mut Vec<Command>)
        requires
            old(self)@.wf(),
            old(self)@.has_ids(1),
        ensures
            final(self)@.wf(),
            took(
                match newest(paths@) {
                    Some(b) => old(self)@.shown(b),
                    None => old(self)@.unchanged(),
                },
                final(self)@,
                commands(old(out)@),
                commands(final(out)@),
            ),
    {
        let mut paths = paths;
        match paths.pop() {
            Some(path) => {
                self.show(path, out);
            },
            None => {
                assert(commands(out@) =~= commands(old(out)@) + Seq::<CommandView>::empty());
            },
        }
    }

    /// The hotkey was pressed, on these files. Only the newest press counts: on
    /// the file that is on screen it puts it away, on another it shows it.
    pub fn poll_presses(&mut self, paths: Vec<FilePath>, out: &mut Vec<Command>)
        requires
            old(self)@.wf(),
            old(self)@.has_ids(1),
        ensures
            final(self)@.wf(),
            took(
                match newest(paths@) {
                    Some(b) => if old(self)@.visible && old(self)@.path.len() > 0 && path::same_path(
                        old(self)@.path,
                        b,
                    ) {
                        old(self)@.dismissed()
                    } else {
                        old(self)@.shown(b)
                    },
                    None => old(self)@.unchanged(),
                },
                final(self)@,
                commands(old(out)@),
                commands(final(out)@),
            ),
    {
        let mut paths = paths;
        let latest = paths.pop();
        let showing = if self.visible {
            self.current()
        } else {
            None
        };
        match crate::hotkey::action(latest, showing) {
            crate::hotkey::Action::Show(path) => {
                self.show(path, out);
            },
            crate::hotkey::Action::Dismiss => {
                self.dismiss(out);
            },
            crate::hotkey::Action::Ignore => {
                assert(commands(out@) =~= commands(old(out)@) + Seq::<CommandView>::empty());
            },
        }
    }

    /// Something was chosen in the tray menu.
    pub fn poll_tray(&mut self, event: TrayEvent, out: &mut Vec<Command>)
        requires
            old(self)@.wf(),
        ensures
            final(self)@.wf(),
            took(
                match event {
                    TrayEvent::OpenFile => (
                        old(self)@.revealed().0,
                        old(self)@.revealed().1.push(CommandView::AskDialog),
                    ),
                    TrayEvent::Preview(path) => (old(self)@, seq![CommandView::Open(path@)]),
                    TrayEvent::SetHotkey(spec) => (old(self)@, seq![CommandView::Rebind(spec@)]),
                    TrayEvent::Quit => old(self)@.ended(),
                },
                final(self)@,
                commands(old(out)@),
                commands(final(out)@),
            ),
    {
        let ghost had = commands(out@);
        match event {
            TrayEvent::OpenFile => {
                self.bring_up(out);
                emit(out, Command::AskDialog);
                assert(commands(out@) =~= had + old(self)@.revealed().1.push(
                    CommandView::AskDialog,
                ));
            },
            TrayEvent::Preview(path) => {
                let ghost b = path@;
                emit(out, Command::Open(path));
                assert(commands(out@) =~= had + seq![CommandView::Open(b)]);
            },
            TrayEvent::SetHotkey(spec) => {
                let ghost s = spec@;
                emit(out, Command::Rebind(spec));
                assert(commands(out@) =~= had + seq![CommandView::Rebind(s)]);
            },
            TrayEvent::Quit => {
                self.quitting = true;
                self.stop(out);
                emit(out, Command::Close);
                assert(commands(out@) =~= had + old(self)@.ended().1);
            },
        }
    }

    /// The dialog closed, with a choice or without. The last choice is opened.
    pub fn poll_picked(&mut self, answers: Vec<Option<FilePath>>, out: &mut Vec<Command>)
        requires
            old(self)@.wf(),
        ensures
            final(self)@.wf(),
            took(
                (
                    AppView {
                        dialog_open: old(self)@.dialog_open && answers@.len() == 0,
                        ..old(self)@
                    },
                    match chosen(answers@) {
                        Some(b) => seq![CommandView::Open(b)],
                        None => Seq::empty(),
                    },
                ),
                final(self)@,
                commands(old(out)@),
                commands(final(out)@),
            ),
    {
        let ghost had = commands(out@);
        if answers.len() > 0 {
            self.dialog_open = false;
        }
        let mut i: usize = answers.len();
        assert(answers@.subrange(0, answers@.len() as int) =~= answers@);
        while i > 0
            invariant
                i <= answers.len(),
                old(self)@.wf(),
                self@ == (AppView {
                    dialog_open: old(self)@.dialog_open && answers@.len() == 0,
                    ..old(self)@
                }),
                chosen(answers@) == chosen(answers@.subrange(0, i as int)),
                commands(out@) == had,
                had == commands(old(out)@),
            decreases i,
        {
            let ghost upto = answers@.subrange(0, i as int);
            assert(upto.drop_last() =~= answers@.subrange(0, i - 1));
            match &answers[i - 1] {
                Some(path) => {
                    emit(out, Command::Open(path.copy()));
                    assert(commands(out@) =~= had + seq![CommandView::Open(path@)]);
                    return;
                },
                None => {},
            }
            i = i - 1;
        }
        assert(commands(out@) =~= had + Seq::<CommandView>::empty());
    }

    /// The list of recent files was read. What this session has shown stays on
    /// top of it.
    pub fn poll_recent(&mut self, read: Recent, out: &mut Vec<Command>)
        requires
            old(self)@.wf(),
            read.wf(),
        ensures
            final(self)@.wf(),
            took(
                (
                    AppView { recent: model::merged(old(self)@.recent, read@), ..old(self)@ },
                    seq![CommandView::RefreshRecent],
                ),
                final(self)@,
                commands(old(out)@),
                commands(final(out)@),
            ),
    {
        let ghost session = self.recent@;
        let ghost start = read@;
        let mut list = read;
        let mut i: usize = self.recent.paths().len();
        assert(session.skip(i as int) =~= Seq::<PathView>::empty());
        while i > 0
            invariant
                i <= session.len(),
                self.recent@ == session,
                list.wf(),
                list@ == model::merged(session.skip(i as int), start),
            decreases i,
        {
            let paths = self.recent.paths();
            let path = &paths[i - 1];
            assert(path@ == session[i - 1]) by {
                assert(path::path_bytes(paths@)[i - 1] == paths@[i - 1]@);
            }
            list.add(path);
            assert(session.skip(i - 1).drop_first() =~= session.skip(i as int));
            assert(session.skip(i - 1)[0] == session[i - 1]);
            i = i - 1;
        }
        assert(session.skip(0) =~= session);
        self.recent = list;
        emit(out, Command::RefreshRecent);
        assert(commands(out@) =~= commands(old(out)@) + seq![CommandView::RefreshRecent]);
    }

    /// `present` is, for each recent file, whether it is still there. The home
    /// screen and the tray menu list those that are.
    pub fn refresh_recent(&mut self, present: &[bool], out: &mut Vec<Command>)
        requires
            old(self)@.wf(),
            present.len() == old(self)@.recent.len(),
        ensures
            final(self)@.wf(),
            took(
                (
                    AppView {
                        recent_shown: probe::kept(old(self)@.recent, present@),
                        ..old(self)@
                    },
                    seq![CommandView::UpdateTray],
                ),
                final(self)@,
                commands(old(out)@),
                commands(final(out)@),
            ),
    {
        self.recent_shown = self.recent.existing(present);
        emit(out, Command::UpdateTray);
        assert(commands(out@) =~= commands(old(out)@) + seq![CommandView::UpdateTray]);
    }

    /// Whether `spec` is another hotkey than the one that is held.
    pub fn is_rebind(&self, spec: &str) -> (r: bool)
        ensures
            r == (self@.hotkey_spec != Some(spec@)),
    {
        match &self.hotkey_spec {
            Some(held) => !same_text(held.as_str(), spec),
            None => true,
        }
    }

    /// A hotkey was to be grabbed in place of the one that is held, and this is
    /// what came of it. Only one that was granted takes its place and is written
    /// down: the old one is kept otherwise.
    pub fn rebound(&mut self, spec: &str, status: &Status, out: &mut Vec<Command>)
        requires
            old(self)@.wf(),
        ensures
            final(self)@.wf(),
            took(
                if status.why() is None {
                    (
                        AppView { hotkey_spec: Some(spec@), ..old(self)@ },
                        seq![CommandView::SaveHotkey(spec@), CommandView::UpdateTray],
                    )
                } else {
                    old(self)@.unchanged()
                },
                final(self)@,
                commands(old(out)@),
                commands(final(out)@),
            ),
    {
        let ghost had = commands(out@);
        if status.is_registered() {
            self.hotkey_spec = Some(spec.to_owned());
            emit(out, Command::SaveHotkey(spec.to_owned()));
            emit(out, Command::UpdateTray);
            assert(commands(out@) =~= had + seq![
                CommandView::SaveHotkey(spec@),
                CommandView::UpdateTray,
            ]);
        } else {
            assert(commands(out@) =~= had + Seq::<CommandView>::empty());
        }
    }
}

/// How far it is from one number to the other.
pub open spec fn distance(a: int, b: int) -> int {
    if a >= b {
        a - b
    } else {
        b - a
    }
}

} // verus!
