use sekio_gui::path::FilePath;
use sekio_gui::scan::{scanned_dir, sorted, Found, Kind};
use sekio_gui::state::{
    close_action, close_intent, human_size, posture, worth_rescaling, Close, Intent, Mode, OnClose,
    RequestTracker, Siblings,
};

fn path(s: &str) -> FilePath {
    FilePath::new(s)
}

fn files(names: &[&str]) -> Vec<FilePath> {
    names.iter().map(|n| path(n)).collect()
}

#[test]
fn only_a_lasting_window_looks_for_updates() {
    assert!(Mode::App.checks_updates());
    assert!(Mode::Daemon.checks_updates());
    assert!(!Mode::Popup.checks_updates());
}

#[test]
fn a_daemon_the_user_launched_follows_the_application_rule() {
    assert_eq!(posture(Mode::Daemon, false), Mode::App);
    assert_eq!(
        close_action(posture(Mode::Daemon, false), true),
        Close::Home,
        "Escape on a window somebody opened goes home, as the legend says"
    );
    assert_eq!(close_action(posture(Mode::Daemon, false), false), Close::Nothing);
}

#[test]
fn a_summoned_window_is_still_put_away_by_escape() {
    assert_eq!(posture(Mode::Daemon, true), Mode::Daemon);
    assert_eq!(close_action(posture(Mode::Daemon, true), true), Close::Hide);
}

#[test]
fn only_a_daemon_has_a_posture_to_choose() {
    for summoned in [true, false] {
        assert_eq!(posture(Mode::Popup, summoned), Mode::Popup);
        assert_eq!(posture(Mode::App, summoned), Mode::App);
    }
}

#[test]
fn a_window_with_room_to_spare_asks_for_a_sharper_picture() {
    assert!(worth_rescaling(1800, 1024, 1024));
}

#[test]
fn a_file_with_nothing_more_to_give_is_not_decoded_again() {
    assert!(!worth_rescaling(1800, 200, 1024));
    assert!(!worth_rescaling(4096, 200, 1024));
}

#[test]
fn a_smaller_window_costs_nothing() {
    assert!(!worth_rescaling(800, 1800, 1800));
    assert!(!worth_rescaling(1800, 1800, 1800));
}

#[test]
fn only_a_daemon_with_an_icon_is_ever_asked() {
    for mode in [Mode::Popup, Mode::App] {
        for tray in [true, false] {
            assert_eq!(
                close_intent(mode, tray, OnClose::Ask),
                Intent::Quit,
                "{mode:?} with tray={tray} has no second answer to offer"
            );
        }
    }
    assert_eq!(
        close_intent(Mode::Daemon, false, OnClose::Ask),
        Intent::Tray,
        "no icon means no way back from a hidden window, so do not offer one"
    );
    assert_eq!(close_intent(Mode::Daemon, true, OnClose::Ask), Intent::Ask);
}

#[test]
fn a_remembered_answer_is_not_asked_again() {
    assert_eq!(close_intent(Mode::Daemon, true, OnClose::Tray), Intent::Tray);
    assert_eq!(close_intent(Mode::Daemon, true, OnClose::Quit), Intent::Quit);
}

#[test]
fn losing_the_icon_does_not_reopen_the_question() {
    assert_eq!(close_intent(Mode::Daemon, false, OnClose::Tray), Intent::Tray);
    assert_eq!(
        close_intent(Mode::Daemon, false, OnClose::Quit),
        Intent::Quit,
        "'always quit' with no icon must not leave a process nothing can show"
    );
}

#[test]
fn every_on_close_name_round_trips() {
    for name in OnClose::names() {
        let parsed = OnClose::parse(name).expect("a documented name must parse");
        assert_eq!(parsed.as_str(), name);
    }
    assert_eq!(OnClose::parse("Tray"), Some(OnClose::Tray));
    assert_eq!(OnClose::parse("minimize"), Some(OnClose::Tray));
    assert_eq!(OnClose::parse("sometimes"), None);
    assert_eq!(OnClose::default(), OnClose::Ask);
}

#[test]
fn every_other_way_to_write_an_answer_is_read() {
    assert_eq!(OnClose::parse(" HIDE "), Some(OnClose::Tray));
    assert_eq!(OnClose::parse("exit"), Some(OnClose::Quit));
    assert_eq!(OnClose::parse(""), None);
}

#[test]
fn ids_increase_and_previous_request_is_cancelled() {
    let mut t = RequestTracker::new();
    let (id1, cancelled) = t.begin();
    assert_eq!(cancelled, None);
    let (id2, cancelled) = t.begin();
    assert!(id2 > id1);
    assert_eq!(cancelled, Some(id1), "moving on must cancel the old request");
    assert!(t.is_pending());
    assert_eq!(t.last(), id2);
}

#[test]
fn stale_results_are_discarded_and_current_accepted() {
    let mut t = RequestTracker::new();
    let (stale, _) = t.begin();
    let (current, _) = t.begin();
    assert!(!t.accept(stale), "stale result must never be displayed");
    assert!(t.is_pending());
    assert!(t.accept(current));
    assert!(!t.is_pending(), "accepting clears the pending placeholder");
    assert!(!t.accept(current), "a duplicate result is rejected too");
}

#[test]
fn cancel_all_stops_the_in_flight_request() {
    let mut t = RequestTracker::new();
    let (id, _) = t.begin();
    assert_eq!(t.cancel_all(), Some(id));
    assert!(!t.is_pending());
    assert!(!t.accept(id));
    assert_eq!(t.cancel_all(), None);
}

#[test]
fn navigation_clamps_at_both_ends() {
    let list = files(&["/d/a.txt", "/d/b.txt", "/d/c.txt"]);
    let mut s = Siblings::from_files(list, &path("/d/b.txt"), false);
    assert_eq!(s.position(), Some(2));
    assert_eq!(s.step(1), Some(path("/d/c.txt")));
    assert_eq!(s.step(1), None, "clamped at the last file");
    assert_eq!(s.step(-1), Some(path("/d/b.txt")));
    assert_eq!(s.step(-1), Some(path("/d/a.txt")));
    assert_eq!(s.step(-1), None, "clamped at the first file");
    assert_eq!(s.position(), Some(1));
}

#[test]
fn navigation_wraps_when_enabled() {
    let list = files(&["/d/a.txt", "/d/b.txt"]);
    let mut s = Siblings::from_files(list, &path("/d/b.txt"), true);
    assert_eq!(s.step(1), Some(path("/d/a.txt")));
    assert_eq!(s.step(-1), Some(path("/d/b.txt")));
}

#[test]
fn a_long_step_wraps_around_as_often_as_it_takes() {
    let list = files(&["/d/a.txt", "/d/b.txt", "/d/c.txt"]);
    let mut s = Siblings::from_files(list, &path("/d/a.txt"), true);
    assert_eq!(s.step(-7), Some(path("/d/c.txt")));
    assert_eq!(s.step(8), Some(path("/d/b.txt")));
    assert_eq!(s.step(3), None, "three on is where it stands");
}

#[test]
fn empty_or_single_directory_never_moves() {
    let mut none = Siblings::from_files(vec![], &path("/d/a.txt"), true);
    assert_eq!(none.step(1), None);
    assert!(none.is_empty());

    let mut one = Siblings::from_files(files(&["/d/a.txt"]), &path("/d/a.txt"), true);
    assert_eq!(one.step(1), None, "wrapping onto itself is not a move");
    assert_eq!(one.len(), 1);
}

#[test]
fn unknown_current_path_enters_the_list_from_the_matching_end() {
    let names = ["/d/a.txt", "/d/b.txt", "/d/c.txt"];
    let mut fwd = Siblings::from_files(files(&names), &path("/d"), false);
    assert_eq!(fwd.position(), None);
    assert_eq!(fwd.step(1), Some(path("/d/a.txt")));
    let mut back = Siblings::from_files(files(&names), &path("/d"), false);
    assert_eq!(back.step(-1), Some(path("/d/c.txt")));
}

fn found(name: &str, kind: Kind) -> Found {
    Found { path: path(name), kind }
}

#[test]
fn scan_skips_directories_and_finds_the_current_file() {
    let dir = path("/tmp/sekio-gui-nav");
    let current = dir.join_str("b.txt");
    assert_eq!(scanned_dir(&current), dir);
    let entries = vec![
        found("/tmp/sekio-gui-nav/c.txt", Kind::File),
        found("/tmp/sekio-gui-nav/sub", Kind::Directory),
        found("/tmp/sekio-gui-nav/a.txt", Kind::File),
        found("/tmp/sekio-gui-nav/b.txt", Kind::File),
    ];
    let mut s = Siblings::scan(&current, &entries, false);
    assert_eq!(s.len(), 3, "the `sub` directory must not be listed");
    assert_eq!(s.position(), Some(2));
    assert_eq!(s.step(1), Some(dir.join_str("c.txt")));
    assert_eq!(s.step(1), None);
}

#[test]
fn a_link_counts_as_what_it_leads_to() {
    let entries = vec![
        found("/d/z", Kind::Link { to_directory: false }),
        found("/d/y", Kind::Link { to_directory: true }),
        found("/d/x", Kind::Unknown),
        found("/d/a", Kind::File),
    ];
    let mut s = Siblings::scan(&path("/d/a"), &entries, false);
    assert_eq!(s.len(), 2);
    assert_eq!(s.step(1), Some(path("/d/z")));
}

#[test]
fn a_bare_name_is_next_to_the_files_here() {
    assert_eq!(scanned_dir(&path("a.txt")), path("."));
    assert_eq!(scanned_dir(&path("/")), path("."));
}

#[test]
fn paths_sort_by_their_components() {
    let mixed = files(&["b", "/z", "a/b", "a.b", "..", "./c", "a", "/a/b", "/a.b"]);
    let expected: Vec<std::path::PathBuf> = {
        let mut v: Vec<std::path::PathBuf> = ["b", "/z", "a/b", "a.b", "..", "./c", "a", "/a/b", "/a.b"]
            .iter()
            .map(std::path::PathBuf::from)
            .collect();
        v.sort();
        v
    };
    let shown: Vec<String> = sorted(&mixed).iter().map(|p| p.display()).collect();
    let wanted: Vec<String> = expected.iter().map(|p| p.display().to_string()).collect();
    assert_eq!(shown, wanted);
}

#[test]
fn a_popup_closes_but_an_app_goes_home() {
    assert_eq!(close_action(Mode::Popup, true), Close::Window);
    assert_eq!(close_action(Mode::Daemon, true), Close::Hide);
    assert_eq!(close_action(Mode::Daemon, false), Close::Hide);
    assert_eq!(close_action(Mode::App, true), Close::Home);
    assert_eq!(close_action(Mode::App, false), Close::Nothing);
}

#[test]
fn opening_a_file_inside_the_app_makes_it_an_app() {
    assert_eq!(Mode::Popup.promoted(), Mode::App);
    assert_eq!(Mode::App.promoted(), Mode::App);
    assert_eq!(
        Mode::Daemon.promoted(),
        Mode::Daemon,
        "a daemon must stay resident whatever the user opens"
    );
    assert_eq!(close_action(Mode::Popup.promoted(), true), Close::Home);
}

#[test]
fn human_size_matches_the_cli() {
    assert_eq!(human_size(0), "0 B");
    assert_eq!(human_size(512), "512 B");
    assert_eq!(human_size(2048), "2.0 KB");
    assert_eq!(human_size(3 * 1024 * 1024), "3.0 MB");
}

fn by_doubles(bytes: u64) -> String {
    let units = ["B", "KB", "MB", "GB", "TB"];
    let mut size = bytes as f64;
    let mut unit = 0;
    while size >= 1024.0 && unit < units.len() - 1 {
        size /= 1024.0;
        unit += 1;
    }
    if unit == 0 {
        format!("{bytes} B")
    } else {
        format!("{size:.1} {}", units[unit])
    }
}

#[test]
fn sizes_are_rounded_as_doubles_are() {
    let mut n: u64 = 1;
    for _ in 0..2000 {
        assert_eq!(human_size(n), by_doubles(n), "{n}");
        n = n.wrapping_mul(6364136223846793005).wrapping_add(1442695040888963407);
        n >>= n % 61;
    }
    for n in [1023, 1024, 1075, 1076, 1126, 1048575, 1048576, u64::MAX, u64::MAX - 1, 1 << 53] {
        assert_eq!(human_size(n), by_doubles(n), "{n}");
    }
}
