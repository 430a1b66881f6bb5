use sekio_gui::config::Platform;
use sekio_gui::browser::{compact_with, home, start_dir, Activate, Browser};
use sekio_gui::content::ListEntry;
use sekio_gui::path::FilePath;

fn path(s: &str) -> FilePath {
    FilePath::new(s)
}

fn entry(name: &str, is_dir: bool) -> ListEntry {
    ListEntry { name: name.to_owned(), is_dir, size: if is_dir { None } else { Some(1) } }
}

fn listed() -> Browser {
    let mut browser = Browser::new();
    browser.show(path("/d"));
    assert!(browser.is_loading());
    assert!(browser.fill(
        &path("/d"),
        vec![entry("sub", true), entry("a.txt", false), entry("b.txt", false)],
    ));
    browser
}

#[test]
fn a_listing_for_another_directory_is_ignored() {
    let mut browser = listed();
    browser.show(path("/d/sub"));
    assert!(browser.entries().is_empty(), "the old listing is dropped");
    assert!(!browser.fill(&path("/d"), vec![entry("stale", false)]));
    assert!(browser.entries().is_empty());
    assert!(browser.is_loading(), "still waiting for the right listing");
    assert!(!browser.fail(&path("/d")), "a stale failure is ignored too");
    assert!(browser.is_loading());
}

#[test]
fn the_cursor_clamps_at_both_ends() {
    let mut browser = listed();
    assert_eq!(browser.cursor(), 0);
    browser.move_cursor(-1);
    assert_eq!(browser.cursor(), 0, "clamped at the top");
    browser.move_cursor(1);
    browser.move_cursor(1);
    assert_eq!(browser.cursor(), 2);
    browser.move_cursor(1);
    assert_eq!(browser.cursor(), 2, "clamped at the bottom");
    browser.move_cursor(isize::MIN);
    assert_eq!(browser.cursor(), 0, "a huge step cannot overflow");
    browser.move_cursor(isize::MAX);
    assert_eq!(browser.cursor(), 2);
}

#[test]
fn an_empty_or_failed_listing_has_no_selection() {
    let mut browser = Browser::new();
    browser.show(path("/d"));
    assert!(browser.fill(&path("/d"), vec![]));
    browser.move_cursor(5);
    assert_eq!(browser.cursor(), 0);
    assert!(browser.activate(browser.cursor()).is_none());

    assert!(browser.fail(&path("/d")));
    assert!(browser.has_failed());
    assert!(!browser.is_loading());
    assert!(browser.activate(browser.cursor()).is_none());
}

#[test]
fn clicking_a_row_clamps_rather_than_panicking() {
    let mut browser = listed();
    browser.select(1);
    assert_eq!(browser.activate(browser.cursor()), Some(Activate::Preview(path("/d/a.txt"))));
    browser.select(99);
    assert_eq!(browser.cursor(), 2);
}

#[test]
fn directories_descend_and_files_preview() {
    let browser = listed();
    assert_eq!(browser.activate(0), Some(Activate::Descend(path("/d/sub"))));
    assert_eq!(browser.activate(1), Some(Activate::Preview(path("/d/a.txt"))));
    assert_eq!(browser.activate(7), None);
}

#[test]
fn the_root_has_no_parent() {
    let mut browser = listed();
    assert_eq!(browser.parent(), Some(path("/")));
    browser.show(path("/"));
    assert_eq!(browser.parent(), None, "there is nowhere above the root");
}

#[test]
fn opening_and_closing_the_pane() {
    let mut browser = Browser::new();
    assert!(!browser.is_open());
    browser.show(path("/d"));
    assert!(browser.is_open());
    browser.close();
    assert!(!browser.is_open());
    assert_eq!(browser.dir(), &path("/d"), "closing keeps our place");
}

#[test]
fn reopening_keeps_the_place_and_refreshes() {
    let mut browser = listed();
    browser.move_cursor(2);
    browser.close();
    browser.reopen();
    assert!(browser.is_open());
    assert!(browser.is_loading(), "a reopened pane refreshes its listing");
    assert_eq!(browser.entries().len(), 3, "and shows the old list meanwhile");

    assert!(browser.fill(&path("/d"), vec![entry("sub", true), entry("a.txt", false)]));
    assert_eq!(browser.cursor(), 1);

    assert!(browser.fill(
        &path("/d"),
        vec![entry("sub", true), entry("a.txt", false), entry("c.txt", false)],
    ));
    assert_eq!(browser.cursor(), 1);
}

#[test]
fn home_is_written_as_a_tilde_and_long_paths_are_trimmed() {
    let home = path("/home/x");
    assert_eq!(compact_with(&home, Some(&home)), "~");
    assert_eq!(compact_with(&path("/home/x/docs"), Some(&home)), "~/docs");
    assert_eq!(compact_with(&path("/etc"), Some(&home)), "/etc");
    assert_eq!(compact_with(&path("/etc"), None), "/etc");

    let deep = path(&("/a/very/long/".to_owned() + &"segment/".repeat(12)));
    let short = compact_with(&deep, Some(&home));
    assert!(short.chars().count() <= 44, "{short:?} still fits the pane");
    assert!(short.starts_with('…'), "the tail is what matters: {short:?}");
    assert!(short.ends_with("segment/"));
}

#[test]
fn start_dir_prefers_the_file_being_previewed() {
    let dir = path("/tmp/sekio-gui-browse");
    let file = dir.join_str("a.txt");
    let somewhere = || Some(path("/home/x"));
    assert_eq!(
        start_dir(Platform::Unix, Some(file.copy()), false, somewhere(), None),
        dir,
        "next to the file on screen"
    );
    assert_eq!(
        start_dir(Platform::Unix, Some(dir.copy()), true, somewhere(), None),
        dir,
        "a directory opens itself"
    );
    assert_eq!(start_dir(Platform::Unix, None, false, somewhere(), Some(path("/w"))), path("/home/x"));
    assert_eq!(start_dir(Platform::Unix, None, false, None, Some(path("/w"))), path("/w"));
    assert_eq!(start_dir(Platform::Unix, None, false, None, None), path("."));
    assert!(!start_dir(Platform::Unix, Some(path("")), false, None, None).is_empty());
    assert_eq!(start_dir(Platform::Unix, Some(path("bare")), false, somewhere(), None), path("/home/x"));
}

#[test]
fn home_is_the_first_variable_that_is_set() {
    assert_eq!(home(Some(path("/h")), Some(path("/p"))), Some(path("/h")));
    assert_eq!(home(None, Some(path("/p"))), Some(path("/p")));
    assert_eq!(home(Some(path("h")), Some(path("/p"))), None, "a relative home is none");
    assert_eq!(home(None, None), None);
    let on_windows = |s: &str| Some(FilePath::new_on(Platform::Windows, s));
    let profile = || on_windows(r"C:\Users\x");
    assert_eq!(home(None, profile()), profile());
    assert_eq!(home(on_windows("/h"), profile()), None, "no drive");
    assert_eq!(home(None, Some(path(r"C:\Users\x"))), None);
}

#[test]
fn start_dir_on_windows() {
    let at = |s: &str| FilePath::new_on(Platform::Windows, s);
    assert_eq!(start_dir(Platform::Windows, Some(at(r"C:\docs\a.txt")), false, None, None), at(r"C:\docs"));
    assert_eq!(start_dir(Platform::Windows, None, false, None, None), at("."));
}
