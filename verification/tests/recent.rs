use sekio_gui::config::Platform;
use sekio_gui::path::FilePath;
use sekio_gui::recent::{state_dir_from, state_file, Recent, CAP};

fn abs(name: &str) -> FilePath {
    FilePath::new("/tmp").join_str(name)
}

fn path(s: &str) -> FilePath {
    FilePath::new(s)
}

#[test]
fn newest_first_and_re_adding_moves_to_the_top() {
    let mut recent = Recent::new();
    assert!(recent.add(&abs("a.txt")));
    assert!(recent.add(&abs("b.txt")));
    assert_eq!(recent.paths(), &vec![abs("b.txt"), abs("a.txt")]);

    assert!(recent.add(&abs("a.txt")), "a move counts as a change");
    assert_eq!(recent.paths(), &vec![abs("a.txt"), abs("b.txt")]);
    assert_eq!(recent.paths().len(), 2, "no duplicate entry");

    assert!(
        !recent.add(&abs("a.txt")),
        "re-previewing the top file changes nothing, so nothing is written"
    );
}

#[test]
fn the_list_is_capped() {
    let mut recent = Recent::new();
    for i in 0..CAP + 5 {
        recent.add(&abs(&format!("f{i}.txt")));
    }
    assert_eq!(recent.paths().len(), CAP);
    assert_eq!(recent.paths()[0], abs(&format!("f{}.txt", CAP + 4)));
    assert_eq!(recent.paths()[CAP - 1], abs(&format!("f{}.txt", 5)));
}

#[test]
fn relative_paths_are_refused() {
    let mut recent = Recent::new();
    assert!(!recent.add(&path("notes.md")));
    assert!(!recent.add(&path("")));
    assert!(recent.paths().is_empty());
}

#[test]
fn serialised_form_round_trips() {
    let mut recent = Recent::new();
    recent.add(&abs("one.txt"));
    recent.add(&abs("two with spaces.txt"));
    let text = recent.serialise();
    assert_eq!(text.lines().count(), 2);
    assert_eq!(Recent::parse(&text), recent);
}

#[test]
fn parsing_skips_junk_and_keeps_order() {
    let good = abs("kept.txt");
    let text =
        format!("{}\n\n   \nnot/absolute.txt\n{}\n", good.display(), good.display());
    let recent = Recent::parse(&text);
    assert_eq!(recent.paths(), &vec![good], "blank, relative and duplicate lines go");
}

#[test]
fn parsing_caps_a_file_that_grew_too_long() {
    let text: String = (0..CAP + 7)
        .map(|i| format!("{}\n", abs(&format!("f{i}.txt")).display()))
        .collect();
    assert_eq!(Recent::parse(&text).paths().len(), CAP);
}

#[test]
fn existing_drops_paths_that_are_gone() {
    let here = abs("here.txt");
    let gone = abs("gone.txt");
    let mut recent = Recent::new();
    recent.add(&gone);
    recent.add(&here);
    assert_eq!(recent.paths().len(), 2);
    let present: Vec<bool> = recent.paths().iter().map(|p| p == &here).collect();
    assert_eq!(recent.existing(&present), vec![here]);
}

#[test]
fn state_dir_follows_the_platform_rules() {
    let local = path(r"C:\Users\x\AppData\Local");
    let xdg = path("/home/x/.state");
    let home = path("/home/x");

    assert_eq!(
        state_dir_from(Some(local.copy()), None, None, true),
        Some(local.join_str("sekio"))
    );
    assert_eq!(state_dir_from(None, Some(xdg.copy()), Some(home.copy()), true), None);

    assert_eq!(
        state_dir_from(None, Some(xdg.copy()), Some(home.copy()), false),
        Some(xdg.join_str("sekio"))
    );
    assert_eq!(
        state_dir_from(None, None, Some(home.copy()), false),
        Some(path("/home/x/.local/state/sekio"))
    );
    assert_eq!(
        state_dir_from(None, Some(path("relative")), Some(home.copy()), false),
        Some(path("/home/x/.local/state/sekio")),
        "a relative XDG_STATE_HOME is ignored, per the basedir spec"
    );
    assert_eq!(state_dir_from(None, None, None, false), None);
}

#[test]
fn the_list_is_kept_in_the_state_directory() {
    assert_eq!(
        state_file(None, None, Some(path("/home/x")), false),
        Some(path("/home/x/.local/state/sekio/recent"))
    );
    assert_eq!(state_file(None, None, None, false), None);
}

#[test]
fn a_name_that_is_not_utf8_is_not_written() {
    let mut recent = Recent::new();
    recent.add(&abs("kept.txt"));
    recent.add(&FilePath::from_bytes(vec![0x2f, 0xff]));
    assert_eq!(recent.paths().len(), 2);
    assert_eq!(recent.serialise(), "/tmp/kept.txt\n");
}

#[test]
fn two_spellings_of_a_path_are_one_entry() {
    let mut recent = Recent::new();
    assert!(recent.add(&path("/a/b")));
    assert!(!recent.add(&path("/a//b/")));
    assert_eq!(recent.paths().len(), 1);
    assert_eq!(recent.copy(), recent);
}

#[test]
fn a_list_keeps_the_paths_of_its_platform() {
    let at = |s: &str| FilePath::new_on(Platform::Windows, s);
    let mut recent = Recent::new();
    assert!(recent.add(&at(r"C:\docs\x.txt")));
    assert!(!recent.add(&at(r"C:\docs\x.txt")), "it is on top already");
    assert!(!recent.add(&at("c:/docs/x.txt")), "another spelling of it");
    assert!(!recent.add(&at("/tmp/x.txt")), "no drive");
    assert!(recent.add(&at(r"\\host\share\y.txt")));
    assert_eq!(recent.paths(), &vec![at(r"\\host\share\y.txt"), at(r"C:\docs\x.txt")]);
    let text = recent.serialise();
    assert_eq!(Recent::parse_on(Platform::Windows, &text), recent);
    assert!(Recent::parse(&text).paths().is_empty(), "elsewhere they are no paths");
    assert!(!Recent::new().add(&path(r"C:\docs\x.txt")));
    assert_eq!(recent.copy(), recent);
}
