use sekio_gui::app::labels::{
    ascii_cell, ascii_columns, dropped_path, elapsed_label, entry_label, failure_label, file_name,
    first_title, footer, hex_chunk, hex_columns, hex_offset, hex_rows, keys, listing_note,
    place_names, places, position_label, recent_rows, size_column, title, tray_recent,
};
use sekio_gui::app::layout::{
    break_rows, desired_size, elide, needs_relayout, next_page, paged, parse_number, WindowSize,
};
use sekio_gui::app::model::Kind;
use sekio_gui::app::reflow::{Reflow, REFLOW_SETTLE_MS};
use sekio_gui::app::tray::TrayMenu;
use sekio_gui::app::{
    action_of, Action, Command, DialogAnswer, Keys, Loaded, Outcome, Response, Screen, SekioApp,
    Shown, Startup, TrayEvent,
};
use sekio_gui::browser::Activate;
use sekio_gui::content::{ListEntry, MetaField, PreviewContent, Span, StyledLine, TableRow};
use sekio_gui::hotkey::Status;
use sekio_gui::path::FilePath;
use sekio_gui::recent::Recent;
use sekio_gui::state::{Mode, RequestTracker, Siblings};
use sekio_gui::style::{Shade, Theme};
use sekio_gui::text::chars_of;

fn path(s: &str) -> FilePath {
    FilePath::new(s)
}

fn hex_dump(len: usize) -> PreviewContent {
    PreviewContent::HexDump { data: vec![0; len], file_size: len as u64, mime: None }
}

fn text(lines: &[&str]) -> PreviewContent {
    PreviewContent::Text {
        lines: lines
            .iter()
            .map(|s| StyledLine {
                spans: vec![Span { text: s.to_string(), fg: None, bold: false, italic: false }],
            })
            .collect(),
        language: "Rust".to_owned(),
    }
}

fn field(key: &str, value: &str) -> MetaField {
    MetaField { key: key.to_owned(), value: value.to_owned() }
}

fn picture(fields: Vec<MetaField>) -> PreviewContent {
    PreviewContent::Image {
        width: 10,
        height: 20,
        original_width: 100,
        original_height: 200,
        format: "PNG".to_owned(),
        fields,
    }
}

fn entry(name: &str, is_dir: bool, size: Option<u64>) -> ListEntry {
    ListEntry { name: name.to_owned(), is_dir, size }
}

#[test]
fn hex_row_matches_the_cli_layout() {
    let chunk: Vec<u8> = (0u8..16).collect();
    assert_eq!(hex_columns(&chunk), "00 01 02 03 04 05 06 07  08 09 0a 0b 0c 0d 0e 0f ");
    assert_eq!(ascii_columns(b"ab\x00~"), "ab.~");
}

#[test]
fn short_hex_row_is_padded_to_full_width() {
    let full = hex_columns(&[0u8; 16]).len();
    assert_eq!(hex_columns(&[1, 2, 3]).len(), full);
}

#[test]
fn a_dump_is_cut_into_rows() {
    let data: Vec<u8> = (0..40).collect();
    assert_eq!(hex_rows(0), 0);
    assert_eq!(hex_rows(16), 1);
    assert_eq!(hex_rows(data.len()), 3);
    assert_eq!(hex_chunk(&data, 0), &data[..16]);
    assert_eq!(hex_chunk(&data, 2), &data[32..]);
    assert_eq!(hex_offset(0), "00000000  ");
    assert_eq!(hex_offset(2), "00000020  ");
    assert_eq!(hex_offset(0x1234_5678), "123456780  ");
    assert_eq!(ascii_cell(b"a\xffb c"), " |a.b c|");
}

#[test]
fn desired_size_stays_within_sane_bounds() {
    let bounds = |content: &PreviewContent| match desired_size(content) {
        WindowSize::Halves { width, height } => {
            (f64::from(width) / 2.0, f64::from(height) / 2.0)
        }
        WindowSize::Picture { .. } => panic!("only a picture is measured as one"),
    };
    let (x, y) = bounds(&hex_dump(4096));
    assert!(x >= 420.0 && x <= 1400.0);
    assert!(y >= 300.0 && y <= 900.0);

    let sheet = PreviewContent::Table {
        columns: (0..900).map(|i| i.to_string()).collect(),
        rows: (0..500).map(|_| TableRow { label: String::new(), cells: Vec::new() }).collect(),
        sheets: Vec::new(),
        active_sheet: 0,
        total_rows: 500,
        total_cols: 16_384,
    };
    let (x, y) = bounds(&sheet);
    assert!(x >= 420.0 && x <= 1400.0, "{x}");
    assert!(y >= 300.0 && y <= 900.0, "{y}");
}

#[test]
fn a_window_is_as_large_as_what_it_shows() {
    let halves = |width, height| WindowSize::Halves { width, height };
    let wide = "x".repeat(100);
    assert_eq!(desired_size(&text(&[wide.as_str(); 30])), halves(100 * 15 + 80, 30 * 34 + 144));
    assert_eq!(desired_size(&text(&[])), halves(80 * 15 + 80, 600));
    assert_eq!(
        desired_size(&PreviewContent::Metadata { fields: Vec::new(), thumbnail: false }),
        halves(1120, 664)
    );
    let names: Vec<ListEntry> = (0..20).map(|_| entry(&"n".repeat(60), false, None)).collect();
    assert_eq!(
        desired_size(&PreviewContent::Listing { entries: names }),
        halves(73 * 15 + 80, 20 * 34 + 144)
    );
    assert_eq!(desired_size(&picture(Vec::new())), WindowSize::Picture { width: 100, height: 200 });
}

#[test]
fn only_text_is_laid_out_by_core_for_a_width_we_supply() {
    assert!(needs_relayout(&PreviewContent::Text { lines: Vec::new(), language: String::new() }));
    assert!(!needs_relayout(&PreviewContent::Table {
        columns: Vec::new(),
        rows: Vec::new(),
        sheets: Vec::new(),
        active_sheet: 0,
        total_rows: 0,
        total_cols: 0,
    }));
    assert!(!needs_relayout(&PreviewContent::Listing { entries: Vec::new() }));
    assert!(!needs_relayout(&PreviewContent::HexDump {
        data: Vec::new(),
        file_size: 0,
        mime: None,
    }));
    assert!(!needs_relayout(&PreviewContent::Metadata { fields: Vec::new(), thumbnail: false }));
}

#[test]
fn the_home_screen_is_the_only_state_that_is_not_showing_a_file() {
    assert!(!Screen::Home.is_showing());
    assert!(Screen::Loading.is_showing());
    assert!(Screen::Failed("boom".to_owned()).is_showing());
}

#[test]
fn a_drop_takes_the_first_path_it_can_use() {
    assert_eq!(dropped_path(&[]), None);
    assert_eq!(dropped_path(&[None]), None);
    assert_eq!(
        dropped_path(&[None, Some(path("/d/a.txt")), Some(path("/d/b.txt"))]),
        Some(path("/d/a.txt"))
    );
}

#[test]
fn browser_activation_maps_onto_the_right_action() {
    assert!(matches!(
        action_of(Activate::Descend(path("/d"))),
        Action::Descend(dir) if dir == path("/d")
    ));
    assert!(matches!(
        action_of(Activate::Preview(path("/d/a.txt"))),
        Action::Open(p) if p == path("/d/a.txt")
    ));
}

#[test]
fn no_row_of_keys_is_wider_than_the_column() {
    let widths = [100u32, 100, 100, 100];
    let gap = 20u32;
    for avail in [80u32, 120, 240, 360, 1000] {
        let rows = break_rows(&widths, avail, gap);
        assert!(!rows.is_empty(), "{avail} produced no rows");
        let packed: usize = rows.iter().map(|r| r.len()).sum();
        assert_eq!(packed, widths.len(), "every key must appear exactly once");
        for row in &rows {
            let used: u32 = widths[row.clone()].iter().sum::<u32>()
                + gap * (row.len().saturating_sub(1)) as u32;
            assert!(
                row.len() == 1 || used <= avail,
                "a row of {} is {used} wide in {avail}",
                row.len()
            );
        }
    }
}

#[test]
fn a_wide_column_keeps_every_key_on_one_row() {
    let widths = [50u32, 50, 50];
    assert_eq!(break_rows(&widths, 1000, 10), vec![0..3]);
}

#[test]
fn an_item_wider_than_the_column_still_gets_a_row() {
    let widths = [500u32, 10];
    let rows = break_rows(&widths, 100, 10);
    assert_eq!(rows, vec![0..1, 1..2]);
    assert!(break_rows(&[], 100, 10).is_empty());
}

#[test]
fn every_key_the_home_screen_advertises_is_spelled_out() {
    let keys = keys();
    for (key, what) in keys {
        assert!(!key.is_empty() && !what.is_empty());
    }
    let keys: Vec<&str> = keys.iter().map(|(key, _)| *key).collect();
    assert!(keys.contains(&"Ctrl+O"), "the fix for the whole complaint");
    assert!(keys.contains(&"Ctrl+B"), "the fallback that always works");
}

#[test]
fn a_name_is_cut_where_it_stops_fitting() {
    let cut = |n: usize| elide("abcdefgh", false, true, move |k: usize| k <= n);
    assert_eq!(cut(3), "abc…");
    assert_eq!(cut(0), "…");
    assert_eq!(cut(7), "abcdefg…");
    assert_eq!(cut(8), "abcdefgh…");
    assert_eq!(elide("abc", true, true, |_: usize| false), "abc");
    assert_eq!(elide("abc", false, false, |_: usize| true), "…");
}

#[test]
fn pages_are_read_from_what_is_said_of_them() {
    let pages = |value: &str| paged(&picture(vec![field("x", "1"), field("page", value)]));
    assert_eq!(pages("3 of 12"), Some((2, 12)));
    assert_eq!(pages(" 1  of  2 "), Some((0, 2)));
    assert_eq!(pages("+1 of 2"), Some((0, 2)));
    assert_eq!(pages("0 of 2"), None, "pages count from one");
    assert_eq!(pages("x of 2"), None);
    assert_eq!(pages("1 of"), None);
    assert_eq!(pages("99999999999999999999999 of 2"), None);
    assert_eq!(paged(&picture(Vec::new())), None);
    assert_eq!(paged(&text(&["1 of 2"])), None);
    assert_eq!(parse_number(&chars_of("18446744073709551615")), "18446744073709551615".parse().ok());
    assert_eq!(parse_number(&chars_of("18446744073709551616")), None);
    assert_eq!(parse_number(&chars_of("")), None);
    assert_eq!(parse_number(&chars_of("+")), None);
    assert_eq!(parse_number(&chars_of("-0")), None);
    assert_eq!(next_page(0, 3, true), Some(1));
    assert_eq!(next_page(2, 3, true), None);
    assert_eq!(next_page(0, 3, false), None);
    assert_eq!(next_page(2, 3, false), Some(1));
}

#[test]
fn the_footer_speaks_of_what_is_shown() {
    assert_eq!(footer(&text(&["a", "b"]), false, None), vec!["Rust · 2 lines"]);
    assert_eq!(
        footer(&picture(vec![field("page", "1 of 2")]), false, Some("150%".to_owned())),
        vec!["PNG · 100×200", "150%", "page: 1 of 2"]
    );
    assert_eq!(footer(&hex_dump(2048), false, None), vec!["binary · 2.0 KB"]);
    let listing = PreviewContent::Listing { entries: vec![entry("a", false, None)] };
    assert_eq!(footer(&listing, false, None), vec!["1 entries"]);
    let facts = PreviewContent::Metadata { fields: vec![field("k", "v")], thumbnail: true };
    assert_eq!(footer(&facts, false, None), vec!["1 fields"]);
    let sheet = PreviewContent::Table {
        columns: vec!["A".to_owned()],
        rows: Vec::new(),
        sheets: Vec::new(),
        active_sheet: 0,
        total_rows: 0,
        total_cols: 0,
    };
    assert_eq!(footer(&sheet, true, None), vec!["showing first 0 rows × 1 columns — more follow"]);
    assert_eq!(elapsed_label(12), "12 ms");
}

#[test]
fn names_and_titles() {
    assert_eq!(file_name(&path("/d/a.txt")), "a.txt");
    assert_eq!(file_name(&path("/")), "/");
    assert_eq!(title(&path("/d/a.txt")), "sekio — a.txt");
    assert_eq!(first_title(Some(&path("/d/a.txt"))), "sekio — /d/a.txt");
    assert_eq!(first_title(None), "sekio");
    assert_eq!(failure_label("gone"), "cannot preview: gone");
    let files = vec![path("/d/a"), path("/d/b")];
    let two = Siblings::from_files(files, &path("/d/b"), false);
    assert_eq!(position_label(&two), Some("2 / 2".to_owned()));
    let one = Siblings::from_files(vec![path("/d/a")], &path("/d/a"), false);
    assert_eq!(position_label(&one), None);
}

#[test]
fn rows_of_a_listing() {
    assert_eq!(entry_label(&entry("d", true, None)), "d/");
    assert_eq!(entry_label(&entry("f", false, None)), "f");
    assert_eq!(size_column(&entry("f", false, Some(2048))), format!("{:>10}  ", "2.0 KB"));
    assert_eq!(size_column(&entry("d", true, None)), " ".repeat(12));
    assert_eq!(listing_note(true, true, 3, 3, ""), Some("cannot list this directory".to_owned()));
    assert_eq!(listing_note(false, true, 0, 0, ""), Some("listing…".to_owned()));
    assert_eq!(listing_note(false, false, 0, 0, ""), Some("empty".to_owned()));
    assert_eq!(listing_note(false, true, 3, 3, ""), None);
    assert_eq!(
        listing_note(false, false, 3, 0, "a\"b"),
        Some(format!("nothing matches {:?}", "a\"b"))
    );
}

#[test]
fn recent_files_have_a_name_and_a_folder() {
    let files: Vec<FilePath> = (0..9).map(|i| path(&format!("/home/x/d/f{i}"))).collect();
    let rows = recent_rows(&files, Some(&path("/home/x")));
    assert_eq!(rows.len(), 8);
    assert_eq!(rows[3].name, "f3");
    assert_eq!(rows[3].folder.as_deref(), Some("~/d"));
    assert_eq!(rows[3].full, "/home/x/d/f3");
    assert_eq!(tray_recent(&files).len(), 8);
    assert_eq!(tray_recent(&files)[7], files[7]);
    assert_eq!(tray_recent(&files[..2]).len(), 2);
}

#[test]
fn places_are_those_that_are_there() {
    let home = path("/home/x");
    assert_eq!(place_names(), ["Documents", "Downloads", "Pictures", "Desktop"]);
    let found = places(Some(&home), [false, true, false, true]);
    let names: Vec<&str> = found.iter().map(|(name, _)| name.as_str()).collect();
    assert_eq!(names, ["Home", "Downloads", "Desktop"]);
    assert_eq!(found[1].1, path("/home/x/Downloads"));
    assert!(places(None, [true; 4]).is_empty());
}

// ---------------------------------------------------------------------------
// The window
// ---------------------------------------------------------------------------
fn app(at: Option<&str>, mode: Mode) -> SekioApp {
    let mut tracker = RequestTracker::new();
    if at.is_some() {
        tracker.begin();
    }
    let startup = Startup {
        tracker,
        path: at.map(path),
        mode,
        wrap: false,
        hotkey_spec: Some("Super+P".to_owned()),
        theme: Theme::System,
        shade: Shade::Dark,
    };
    let mut out = Vec::new();
    let app = SekioApp::new(startup, &mut out);
    assert_eq!(out.len(), usize::from(at.is_some()));
    assert!(app.can_go_on());
    app
}

fn no_keys() -> Keys {
    Keys {
        escape: false,
        space: false,
        up: false,
        down: false,
        left: false,
        right: false,
        enter: false,
        open: false,
        browse: false,
        quit: false,
        zoom_in: false,
        zoom_out: false,
        zoom_reset: false,
        typing: false,
        searching: false,
    }
}

fn press(app: &mut SekioApp, keys: Keys) -> Vec<Command> {
    let mut out = Vec::new();
    app.handle_keys(keys, DialogAnswer::Shown, path("/start"), &mut out);
    out
}

fn ready(id: u64, at: &str, content: PreviewContent) -> Response {
    Response {
        id,
        path: path(at),
        outcome: Outcome::Ready(Loaded { content, truncated: false, pictured: false }),
        elapsed_ms: 5,
    }
}

fn closes(out: &[Command]) -> bool {
    out.iter().any(|c| matches!(c, Command::Close))
}

fn preview_id(out: &[Command]) -> Option<u64> {
    out.iter().find_map(|c| match c {
        Command::Preview { id, .. } => Some(*id),
        _ => None,
    })
}

fn list_id(out: &[Command]) -> Option<u64> {
    out.iter().find_map(|c| match c {
        Command::List { id, .. } => Some(*id),
        _ => None,
    })
}

#[test]
fn only_a_daemon_without_a_path_starts_hidden() {
    assert!(app(None, Mode::App).visible);
    assert!(app(Some("/d/a"), Mode::Popup).visible);
    assert!(app(Some("/d/a"), Mode::Daemon).visible);
    assert!(!app(None, Mode::Daemon).visible);
    assert!(app(None, Mode::App).current().is_none());
    assert_eq!(app(Some("/d/a"), Mode::Popup).current(), Some(&path("/d/a")));
}

#[test]
fn a_preview_is_shown_and_remembered() {
    let mut app = app(Some("/d/a"), Mode::Popup);
    let mut out = Vec::new();
    app.accept_preview(ready(1, "/d/a", text(&["x"])), &mut out);
    match &app.screen {
        Screen::Ready(Shown { id, elapsed_ms, .. }) => assert_eq!((*id, *elapsed_ms), (1, 5)),
        other => panic!("{other:?}"),
    }
    assert_eq!(app.recent.paths(), &vec![path("/d/a")]);
    assert!(matches!(out[0], Command::Fit(_)));
    assert!(matches!(out[1], Command::SaveRecent));
    assert!(matches!(out[2], Command::RefreshRecent));
    match &out[3] {
        Command::Title(title) => assert_eq!(title, "sekio — a"),
        other => panic!("{other:?}"),
    }
    assert!(!app.tracker.is_pending());
}

#[test]
fn a_late_preview_is_dropped() {
    let mut app = app(Some("/d/a"), Mode::Popup);
    let mut out = Vec::new();
    app.show(path("/d/b"), &mut out);
    assert!(out.iter().any(|c| matches!(c, Command::Cancel(Kind::Preview, 1))));
    assert_eq!(preview_id(&out), Some(2));
    let mut out = Vec::new();
    app.accept_preview(ready(1, "/d/a", text(&["x"])), &mut out);
    assert!(out.is_empty());
    assert!(matches!(app.screen, Screen::Loading));
    assert!(app.recent.paths().is_empty());
}

#[test]
fn a_failure_and_a_cancelled_preview() {
    let mut app = app(Some("/d/a"), Mode::Popup);
    let mut out = Vec::new();
    let failed = Response {
        id: 1,
        path: path("/d/a"),
        outcome: Outcome::Failed("gone".to_owned()),
        elapsed_ms: 0,
    };
    app.accept_preview(failed, &mut out);
    assert!(matches!(&app.screen, Screen::Failed(why) if why == "gone"));

    let mut out = Vec::new();
    app.request_current(&mut out);
    app.accept_preview(ready(2, "/d/a", text(&["x"])), &mut out);
    app.request_reflow(&mut out);
    let cancelled = |id| Response {
        id,
        path: path("/d/a"),
        outcome: Outcome::Cancelled,
        elapsed_ms: 0,
    };
    app.accept_preview(cancelled(3), &mut out);
    assert!(matches!(app.screen, Screen::Ready(_)), "a re-layout keeps what is on screen");
    app.request_current(&mut out);
    app.accept_preview(cancelled(4), &mut out);
    assert!(matches!(app.screen, Screen::Loading));
}

#[test]
fn escape_means_what_the_mode_says() {
    let mut popup = app(Some("/d/a"), Mode::Popup);
    assert!(closes(&press(&mut popup, Keys { escape: true, ..no_keys() })));

    let mut home = app(None, Mode::App);
    assert!(press(&mut home, Keys { escape: true, ..no_keys() }).is_empty());

    let mut daemon = app(Some("/d/a"), Mode::Daemon);
    let out = press(&mut daemon, Keys { space: true, ..no_keys() });
    assert!(!closes(&out));
    assert!(!daemon.visible);
    assert!(matches!(daemon.screen, Screen::Home));
    assert!(daemon.current().is_none());

    let mut typing = app(Some("/d/a"), Mode::Popup);
    assert!(press(&mut typing, Keys { space: true, typing: true, ..no_keys() }).is_empty());
}

#[test]
fn opening_through_the_window_makes_it_stay() {
    let mut app = app(Some("/d/a"), Mode::Popup);
    let mut out = Vec::new();
    app.open(path("/d/b"), &mut out);
    assert_eq!(app.mode, Mode::App);
    let out = press(&mut app, Keys { escape: true, ..no_keys() });
    assert!(!closes(&out));
    assert!(matches!(app.screen, Screen::Home));
    assert!(app.visible);
}

#[test]
fn a_resident_window_refuses_to_close_until_it_is_to_end() {
    let mut daemon = app(Some("/d/a"), Mode::Daemon);
    let mut out = Vec::new();
    daemon.handle_close_request(&mut out);
    assert!(matches!(out[0], Command::CancelClose));
    assert!(!closes(&out));
    assert!(!closes(&press(&mut daemon, Keys { quit: true, ..no_keys() })));

    let mut out = Vec::new();
    daemon.poll_tray(TrayEvent::Quit, &mut out);
    assert!(closes(&out));
    let mut out = Vec::new();
    daemon.handle_close_request(&mut out);
    assert!(out.is_empty(), "from here on closing is not refused");

    let mut popup = app(Some("/d/a"), Mode::Popup);
    assert!(closes(&press(&mut popup, Keys { quit: true, ..no_keys() })));
}

#[test]
fn arrows_step_through_the_directory() {
    let mut app = app(Some("/d/b"), Mode::Popup);
    let files = vec![path("/d/a"), path("/d/b"), path("/d/c")];
    app.take_siblings(&path("/other"), Siblings::from_files(Vec::new(), &path("/x"), false));
    app.take_siblings(&path("/d/b"), Siblings::from_files(files, &path("/d/b"), false));
    app.sheet = 3;
    app.page = 4;
    let out = press(&mut app, Keys { right: true, ..no_keys() });
    assert_eq!(app.current(), Some(&path("/d/c")));
    assert_eq!((app.sheet, app.page), (0, 0), "another file starts at its beginning");
    assert_eq!(preview_id(&out), Some(2));
    assert!(press(&mut app, Keys { down: true, ..no_keys() }).is_empty(), "there is no next file");
    press(&mut app, Keys { up: true, ..no_keys() });
    assert_eq!(app.current(), Some(&path("/d/b")));
}

#[test]
fn the_browser_is_steered_while_it_is_open() {
    let mut app = app(None, Mode::App);
    let out = press(&mut app, Keys { browse: true, ..no_keys() });
    assert!(app.browser.is_open());
    assert_eq!(app.browser.dir(), &path("/start"));
    let id = list_id(&out).expect("a listing was asked for");
    app.accept_listing(Response {
        id,
        path: path("/start"),
        outcome: Outcome::Ready(Loaded {
            content: PreviewContent::Listing {
                entries: vec![entry("sub", true, None), entry("a.txt", false, Some(1))],
            },
            truncated: false,
            pictured: false,
        }),
        elapsed_ms: 0,
    });
    assert_eq!(app.browser.entries().len(), 2);
    press(&mut app, Keys { down: true, ..no_keys() });
    let out = press(&mut app, Keys { enter: true, ..no_keys() });
    assert!(matches!(&out[0], Command::Open(p) if p == &path("/start/a.txt")));
    let mut out = Vec::new();
    app.click(0, &mut out);
    assert_eq!(app.browser.dir(), &path("/start/sub"));
    press(&mut app, Keys { left: true, ..no_keys() });
    assert_eq!(app.browser.dir(), &path("/start"));
    press(&mut app, Keys { escape: true, searching: true, ..no_keys() });
    assert!(app.browser.is_open(), "the search comes off first");
    press(&mut app, Keys { escape: true, ..no_keys() });
    assert!(!app.browser.is_open());
    press(&mut app, Keys { browse: true, ..no_keys() });
    assert_eq!(app.browser.dir(), &path("/start"), "it opens where it was");
}

#[test]
fn a_listing_that_fails_says_so() {
    let mut app = app(None, Mode::App);
    let out = press(&mut app, Keys { browse: true, ..no_keys() });
    let id = list_id(&out).expect("a listing was asked for");
    let response = |id, outcome| Response { id, path: path("/start"), outcome, elapsed_ms: 0 };
    app.accept_listing(response(id + 7, Outcome::Failed("late".to_owned())));
    assert!(app.browser.is_loading());
    app.accept_listing(response(id, Outcome::Failed("denied".to_owned())));
    assert!(app.browser.has_failed());
}

#[test]
fn without_a_dialog_the_browser_takes_over() {
    let mut window = app(None, Mode::App);
    let mut out = Vec::new();
    assert!(window.wants_dialog());
    assert!(window.keys_ask_dialog(Keys { open: true, ..no_keys() }));
    window.open_dialog(DialogAnswer::Unavailable("none here"), path("/start"), &mut out);
    assert_eq!(window.dialog_note, Some("none here"));
    assert!(window.browser.is_open());

    let mut window = app(None, Mode::App);
    window.open_dialog(DialogAnswer::NotStarted, path("/start"), &mut out);
    assert!(window.dialog_note.is_some_and(|note| note.contains("built-in browser")));

    let mut window = app(None, Mode::App);
    press(&mut window, Keys { open: true, ..no_keys() });
    assert!(!window.wants_dialog(), "one dialog at a time");
    let mut out = Vec::new();
    window.poll_picked(vec![None, Some(path("/d/a")), None], &mut out);
    assert!(window.wants_dialog());
    assert!(matches!(&out[0], Command::Open(p) if p == &path("/d/a")));
}

#[test]
fn only_the_newest_handoff_and_the_newest_press_count() {
    let mut daemon = app(None, Mode::Daemon);
    let mut out = Vec::new();
    daemon.poll_incoming(Vec::new(), &mut out);
    assert!(out.is_empty());
    daemon.poll_incoming(vec![path("/d/a"), path("/d/b")], &mut out);
    assert_eq!(daemon.current(), Some(&path("/d/b")));
    assert!(daemon.visible);
    assert!(out.iter().any(|c| matches!(c, Command::Visible(true))));
    let mut out = Vec::new();
    daemon.poll_presses(vec![path("/d/b")], &mut out);
    assert!(!daemon.visible, "a second press puts it away");
    daemon.poll_presses(vec![path("/d/b")], &mut out);
    assert!(daemon.visible, "and a third shows it again");
}

#[test]
fn the_tray_is_a_second_way_in() {
    let mut daemon = app(None, Mode::Daemon);
    let mut out = Vec::new();
    daemon.poll_tray(TrayEvent::OpenFile, &mut out);
    assert!(daemon.visible);
    assert!(matches!(out.last(), Some(Command::AskDialog)));
    let mut out = Vec::new();
    daemon.poll_tray(TrayEvent::Preview(path("/d/a")), &mut out);
    assert!(matches!(&out[0], Command::Open(p) if p == &path("/d/a")));
    let mut out = Vec::new();
    daemon.poll_tray(TrayEvent::SetHotkey("Alt+F1".to_owned()), &mut out);
    assert!(matches!(&out[0], Command::Rebind(spec) if spec == "Alt+F1"));
}

#[test]
fn an_unchanged_menu_is_not_sent_again() {
    let held = Some("Super+P".to_owned());
    let files: Vec<FilePath> = (0..9).map(|i| path(&format!("/d/f{i}"))).collect();
    let menu = TrayMenu::new(&held, &files);
    assert_eq!(menu.recent.len(), 8);
    assert!(menu.is_news(None), "the first is always sent");
    assert!(!TrayMenu::new(&held, &files[..8]).is_news(Some(&menu)), "it shows the same");
    assert!(TrayMenu::new(&held, &files[1..]).is_news(Some(&menu)));
    assert!(TrayMenu::new(&held, &files[..3]).is_news(Some(&menu)));
    assert!(TrayMenu::new(&None, &files).is_news(Some(&menu)));
    assert!(TrayMenu::new(&Some("Alt+F1".to_owned()), &files).is_news(Some(&menu)));
}

#[test]
fn a_refused_hotkey_leaves_the_old_one() {
    let mut daemon = app(None, Mode::Daemon);
    assert!(!daemon.is_rebind("Super+P"));
    assert!(daemon.is_rebind("Alt+F1"));
    let mut out = Vec::new();
    daemon.rebound("Alt+F1", &Status::unavailable("Alt+F1", "taken".to_owned()), &mut out);
    assert!(out.is_empty());
    assert_eq!(daemon.hotkey_spec.as_deref(), Some("Super+P"));
    daemon.rebound("Alt+F1", &Status::Registered { spec: "Alt+F1".to_owned() }, &mut out);
    assert_eq!(daemon.hotkey_spec.as_deref(), Some("Alt+F1"));
    assert!(matches!(&out[0], Command::SaveHotkey(spec) if spec == "Alt+F1"));
}

#[test]
fn a_change_of_shade_reaches_the_worker_once() {
    let mut app = app(Some("/d/a"), Mode::Popup);
    let mut out = Vec::new();
    app.poll_theme(Shade::Dark, &mut out);
    assert!(out.is_empty(), "a dark start costs nothing");
    app.accept_preview(ready(1, "/d/a", text(&["x"])), &mut out);
    let mut out = Vec::new();
    app.poll_theme(Shade::Light, &mut out);
    assert!(matches!(out[0], Command::DropLayout));
    assert!(matches!(out[1], Command::Highlight(Shade::Light)));
    assert_eq!(preview_id(&out), Some(2));
    assert!(matches!(app.screen, Screen::Ready(_)), "what is on screen stays");
    let mut out = Vec::new();
    app.poll_theme(Shade::Light, &mut out);
    assert!(out.is_empty());
    app.set_theme(Theme::System, &mut out);
    assert!(out.is_empty());
    app.set_theme(Theme::Dark, &mut out);
    assert!(matches!(out[0], Command::InstallTheme(Theme::Dark)));
    assert!(matches!(out[1], Command::SaveTheme(Theme::Dark)));
}

#[test]
fn only_text_is_asked_for_anew_at_another_width() {
    let mut app = app(Some("/d/a"), Mode::Popup);
    let mut out = Vec::new();
    app.accept_preview(ready(1, "/d/a", text(&["x"])), &mut out);
    let mut out = Vec::new();
    assert!(!app.poll_reflow(true, 80, &mut out), "nothing was measured yet");
    app.measured(Some(100));
    assert_eq!(app.reflowable(), Some(100));
    assert!(!app.poll_reflow(false, 80, &mut out));
    assert!(matches!(out[0], Command::RepaintLater));
    let mut out = Vec::new();
    assert!(!app.poll_reflow(false, 98, &mut out));
    assert!(out.is_empty());
    assert!(app.poll_reflow(true, 80, &mut out));
    assert!(matches!(
        out.last(),
        Some(Command::Preview { id: 2, text_width: Some(100), .. })
    ));
    app.accept_preview(ready(2, "/d/a", hex_dump(4)), &mut out);
    assert_eq!(app.reflowable(), None);
}

#[test]
fn the_wheel_turns_pages_where_there_are_pages() {
    let mut app = app(Some("/d/a.pdf"), Mode::Popup);
    let mut out = Vec::new();
    app.accept_preview(ready(1, "/d/a.pdf", picture(vec![field("page", "1 of 3")])), &mut out);
    assert_eq!(app.pages(), Some((0, 3)));
    let mut out = Vec::new();
    app.handle_wheel(false, false, &mut out);
    assert!(out.is_empty(), "there is no page before the first");
    app.handle_wheel(true, true, &mut out);
    assert!(matches!(out[0], Command::ZoomByWheel));
    let mut out = Vec::new();
    app.handle_wheel(true, false, &mut out);
    assert_eq!(app.page, 1);
    assert!(matches!(out.last(), Some(Command::Preview { page: 1, .. })));
    app.accept_preview(ready(2, "/d/a.pdf", picture(Vec::new())), &mut out);
    let mut out = Vec::new();
    app.handle_wheel(true, false, &mut out);
    assert!(matches!(out[0], Command::ZoomByWheel));
}

#[test]
fn another_sheet_is_asked_for_once() {
    let mut app = app(Some("/d/a.xlsx"), Mode::Popup);
    let mut out = Vec::new();
    app.apply(Action::SetSheet(2), path("/start"), &mut out);
    assert!(matches!(out.last(), Some(Command::Preview { sheet: 2, .. })));
    let mut out = Vec::new();
    app.apply(Action::SetSheet(2), path("/start"), &mut out);
    assert!(out.is_empty());
    app.apply(Action::OpenDialog, path("/start"), &mut out);
    assert!(matches!(out[0], Command::AskDialog));
}

#[test]
fn the_files_of_this_session_stay_on_top() {
    let mut app = app(Some("/d/new"), Mode::Popup);
    let mut out = Vec::new();
    app.accept_preview(ready(1, "/d/new", text(&["x"])), &mut out);
    let mut read = Recent::new();
    read.add(&path("/d/old"));
    read.add(&path("/d/older"));
    let mut out = Vec::new();
    app.poll_recent(read, &mut out);
    assert_eq!(app.recent.paths(), &vec![path("/d/new"), path("/d/older"), path("/d/old")]);
    assert!(matches!(out[0], Command::RefreshRecent));
    app.refresh_recent(&[true, false, true], &mut out);
    assert_eq!(app.recent_shown, vec![path("/d/new"), path("/d/old")]);
    assert!(matches!(out[1], Command::UpdateTray));
}

#[test]
fn a_handoff_with_nothing_in_it_only_raises_the_window() {
    let mut daemon = app(None, Mode::Daemon);
    let mut out = Vec::new();
    daemon.bring_up(&mut out);
    assert!(daemon.visible);
    assert!(matches!(out[0], Command::Visible(true)));
    assert!(matches!(out[1], Command::Focus));
    let mut out = Vec::new();
    daemon.bring_up(&mut out);
    assert_eq!(out.len(), 1, "it is on screen already");
}

#[test]
fn going_home_forgets_the_file() {
    let mut app = app(Some("/d/a"), Mode::App);
    let mut out = Vec::new();
    app.sheet = 2;
    app.go_home(&mut out);
    assert!(matches!(out[0], Command::Cancel(Kind::Preview, 1)));
    assert!(matches!(app.screen, Screen::Home));
    assert!(app.current().is_none());
    assert_eq!(app.sheet, 0);
    assert!(!app.has_image());
    assert!(out.iter().any(|c| matches!(c, Command::Title(title) if title == "sekio")));
}

#[test]
fn a_directory_above_the_root_is_not_listed() {
    let mut app = app(None, Mode::App);
    let mut out = Vec::new();
    app.browse(path("/a"), &mut out);
    app.ascend(&mut out);
    assert_eq!(app.browser.dir(), &path("/"));
    let mut out = Vec::new();
    app.ascend(&mut out);
    assert!(out.is_empty());
}

#[test]
fn a_width_has_to_hold_still_before_it_counts() {
    let mut reflow = Reflow::new(80);
    assert!(!reflow.observe(83, 0), "too little to matter");
    assert!(!reflow.observe(100, 10));
    assert!(!reflow.observe(100, 10 + REFLOW_SETTLE_MS - 1));
    assert!(reflow.observe(100, 10 + REFLOW_SETTLE_MS));
    assert!(!reflow.observe(101, 500), "it moved again");
    assert!(!reflow.observe(80, 900), "it came back");
    assert!(!reflow.observe(101, 901), "so the wait starts anew");
    assert!(!reflow.observe(60, 2000));
    assert!(reflow.observe(60, 2000 + REFLOW_SETTLE_MS));
}
