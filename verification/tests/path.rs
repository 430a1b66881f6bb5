use sekio_gui::app::labels::{file_name, recent_rows, title};
use sekio_gui::browser::compact_with;
use sekio_gui::config::{default_config_path, Platform};
use sekio_gui::path::{FilePath, PrefixKind};
use sekio_gui::scan::{no_later, scanned_dir};
use sekio_gui::state::Siblings;

fn win(s: &str) -> FilePath {
    FilePath::new_on(Platform::Windows, s)
}

fn unix(s: &str) -> FilePath {
    FilePath::new(s)
}

fn text(path: Option<FilePath>) -> Option<String> {
    path.map(|p| p.display())
}

#[test]
fn a_path_keeps_its_platform() {
    assert_eq!(unix("/a").platform(), Platform::Unix);
    assert_eq!(win("a").platform(), Platform::Windows);
    assert_eq!(win("a").join_str("b").platform(), Platform::Windows);
    assert_eq!(win(r"a\b").parent().map(|p| p.platform()), Some(Platform::Windows));
    assert_eq!(win(r"a\b").file_name().map(|p| p.platform()), Some(Platform::Windows));
    assert_eq!(win("a").copy(), win("a"));
    assert_ne!(win("a"), unix("a"));
    assert_eq!(
        FilePath::from_bytes_on(Platform::Windows, vec![0x61]).as_bytes(),
        win("a").as_bytes()
    );
}

#[test]
fn what_a_windows_path_begins_with() {
    let kind = |s: &str| win(s).prefix().kind;
    assert_eq!(kind(r"docs\x"), PrefixKind::Nothing);
    assert_eq!(kind(r"\docs"), PrefixKind::Nothing);
    assert_eq!(kind("C:x"), PrefixKind::Disk);
    assert_eq!(kind(r"\\server\share\x"), PrefixKind::Unc);
    assert_eq!(kind("//server/share/x"), PrefixKind::Unc);
    assert_eq!(kind(r"\\server"), PrefixKind::Nothing);
    assert_eq!(kind(r"\\.\COM1"), PrefixKind::Device);
    assert_eq!(kind(r"\\?\pictures\x"), PrefixKind::Verbatim);
    assert_eq!(kind(r"\\?\C:\x"), PrefixKind::VerbatimDisk);
    assert_eq!(kind(r"\\?\UNC\server\share\x"), PrefixKind::VerbatimUnc);
    assert_eq!(unix("C:x").prefix().kind, PrefixKind::Nothing);
}

#[test]
fn which_windows_paths_are_absolute() {
    for yes in [
        r"C:\x", "c:/x", r"\\server\share", "//server/share", r"\\server\share\x", r"\\.\COM1",
        r"\\?\pictures", r"\\?\C:\x", r"\\?\UNC\server\share",
    ] {
        assert!(win(yes).is_absolute(), "{yes}");
    }
    for no in ["", "x", r"\x", "/x", "C:", "C:x", r"\\server", "1:/x"] {
        assert!(!win(no).is_absolute(), "{no}");
    }
    assert!(unix("/x").is_absolute());
    assert!(!unix(r"C:\x").is_absolute());
}

#[test]
fn the_name_and_the_directory_of_a_windows_path() {
    let x = win(r"C:\docs\x.txt");
    assert_eq!(text(x.file_name()).as_deref(), Some("x.txt"));
    assert_eq!(text(x.parent()).as_deref(), Some(r"C:\docs"));
    assert_eq!(text(win(r"C:\docs").parent()).as_deref(), Some(r"C:\"));
    assert_eq!(text(win(r"C:\").parent()), None);
    assert_eq!(text(win(r"C:\").file_name()), None);
    assert_eq!(text(win("C:x").parent()).as_deref(), Some("C:"));
    assert_eq!(text(win("C:").parent()), None);
    assert_eq!(text(win(r"C:.\x").parent()).as_deref(), Some("C:."));
    assert_eq!(text(win("C:.").parent()), None);
    assert_eq!(text(win("C:/docs/x").file_name()).as_deref(), Some("x"));
    assert_eq!(text(win(r"\\server\share\x").parent()).as_deref(), Some(r"\\server\share\"));
    assert_eq!(text(win(r"\\server\share").parent()), None);
    assert_eq!(text(win(r"\\?\C:\a/b").file_name()).as_deref(), Some("a/b"));
    assert_eq!(text(unix(r"/a\b").file_name()).as_deref(), Some(r"a\b"));
}

#[test]
fn joining_windows_paths() {
    let joined = |a: &str, b: &str| win(a).join_str(b).display();
    assert_eq!(joined(r"C:\docs", "x.txt"), r"C:\docs\x.txt");
    assert_eq!(joined("C:/docs/", "x.txt"), "C:/docs/x.txt");
    assert_eq!(joined("C:", "x"), "C:x");
    assert_eq!(joined(r"C:\docs", r"\x"), r"C:\x");
    assert_eq!(joined(r"C:\docs", r"D:\y"), r"D:\y");
    assert_eq!(joined(r"C:\docs", r"\\server\share"), r"\\server\share");
    assert_eq!(joined(r"\\server\share", "x"), r"\\server\share\x");
    assert_eq!(joined("", "x"), "x");
    assert_eq!(joined(r"\\?\C:\docs", "../x/./y"), r"\\?\C:\x\y");
    assert_eq!(joined(r"\\?\C:\docs", r"\y"), r"\\?\C:\y");
    assert_eq!(unix("a").join_str("b").display(), "a/b");
}

#[test]
fn two_spellings_of_a_windows_path_are_the_same() {
    assert!(win(r"C:\docs\x").same(&win("C:/docs//x/")));
    assert!(win(r"c:\docs").same(&win(r"C:\docs")), "a drive letter in either case");
    assert!(win(r"C:\.\docs").same(&win(r"C:\docs")));
    assert!(win(r"C:.\docs").same(&win("C:docs")), "a dot behind a drive");
    assert!(!win(r".\docs").same(&win("docs")), "a dot that opens a path");
    assert!(!win(r"C:\Docs").same(&win(r"C:\docs")));
    assert!(!win(r"C:docs").same(&win(r"C:\docs")));
    assert!(!win(r"D:\docs").same(&win(r"C:\docs")));
    assert!(!win(r"\\?\C:\docs").same(&win(r"C:\docs")));
    assert!(win("//server/share/x").same(&win(r"\\server\share\x")));
    assert!(!unix(r"C:\docs").same(&unix("C:/docs")));
}

#[test]
fn what_stands_below_a_windows_directory() {
    let below = |a: &str, b: &str| text(win(a).strip_prefix(&win(b)));
    assert_eq!(below(r"C:\Users\x\docs\a", r"C:\Users\x").as_deref(), Some(r"docs\a"));
    assert_eq!(below(r"c:/Users/x/docs", r"C:\Users\x").as_deref(), Some("docs"));
    assert_eq!(below(r"C:\Users\x", r"C:\Users\x\").as_deref(), Some(""));
    assert_eq!(below(r"D:\Users\x", r"C:\Users"), None);
    assert_eq!(below(r"C:\Users", r"C:\Users\x"), None);
}

#[test]
fn a_windows_file_is_shown_by_its_name() {
    let file = win(r"C:\Users\x\docs\report.md");
    assert_eq!(file_name(&file), "report.md");
    assert_eq!(title(&file), "sekio — report.md");
    let home = win(r"C:\Users\x");
    assert_eq!(compact_with(&win(r"C:\Users\x\docs"), Some(&home)), "~/docs");
    let rows = recent_rows(&[file], Some(&home));
    assert_eq!(rows[0].name, "report.md");
    assert_eq!(rows[0].folder.as_deref(), Some("~/docs"));
    assert_eq!(rows[0].full, r"C:\Users\x\docs\report.md");
}

#[test]
fn windows_neighbours_are_found_by_component() {
    assert_eq!(scanned_dir(&win(r"C:\docs\b.txt")).display(), r"C:\docs");
    let files = vec![win(r"C:\docs\a.txt"), win(r"C:\docs\b.txt"), win(r"C:\docs\c.txt")];
    let mut siblings = Siblings::from_files(files, &win("C:/docs/b.txt"), false);
    assert_eq!(siblings.step(1).map(|p| p.display()).as_deref(), Some(r"C:\docs\c.txt"));
}

#[test]
fn the_settings_of_a_windows_user() {
    let appdata = win(r"C:\Users\x\AppData\Roaming");
    assert_eq!(
        text(default_config_path(Platform::Windows, None, None, Some(appdata))).as_deref(),
        Some(r"C:\Users\x\AppData\Roaming\sekio\gui.toml")
    );
}

#[test]
fn windows_paths_sort_by_their_components() {
    let before = |a: &str, b: &str| no_later(&win(a), &win(b)) && !no_later(&win(b), &win(a));
    assert!(before(r"C:\a", r"C:\b"));
    assert!(before(r"C:\a\z", "C:/a.b"), "component by component");
    assert!(before(r"C:\z", "D:a"));
    assert!(before(r"C:\z", "C:a"), "the root comes first");
    assert!(before(r"\\s\t\x", r"C:\x"), "a share before a drive");
    assert!(before(r"\\?\C:\x", r"\\s\t\x"));
    assert!(before("C:x", "x"), "a prefix before a name");
    assert!(before("", "C:"));
    assert!(no_later(&win(r"c:\a"), &win("C:/a/")) && no_later(&win("C:/a/"), &win(r"c:\a")));
}
