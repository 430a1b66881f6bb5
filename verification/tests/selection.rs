use std::cell::Cell;

use sekio_gui::config::Platform;
use sekio_gui::path::FilePath;
use sekio_gui::probe::{find_on_path, first_that, those_that};
use sekio_gui::selection::linux::{
    bare_name, candidate, first_usable, folder_args, open_folders, owner_args, path_from_uri,
    percent_decode, quoted_strings, read_args, resolve_bare_name, says_owned, Ask, Buffer, Bus,
    BusTool, Clipboard, Desktop, Lookup, Target, Tool, MAX_NAME_LEN,
};
use sekio_gui::selection::windows::{owns_focus, pick_previewable, Explorer, MAX_CANDIDATES};
use sekio_gui::selection::child::{
    child_limit, child_step, output_text, search_deadline, Polled, Step, CHILD_TIMEOUT,
    POLL_INTERVAL, TOTAL_BUDGET,
};
use sekio_gui::selection::{usable, Origin, Selection};
use sekio_gui::text::chars_of;

fn path(s: &str) -> FilePath {
    FilePath::new(s)
}

fn from_uri(s: &str) -> Option<FilePath> {
    path_from_uri(&chars_of(s))
}

fn is_candidate(s: &str) -> Option<FilePath> {
    candidate(&chars_of(s))
}

fn strings(v: Vec<Vec<char>>) -> Vec<String> {
    v.into_iter().map(|cs| cs.into_iter().collect()).collect()
}

fn uri_for(s: &str) -> String {
    format!("file://{}", s.replace(' ', "%20"))
}

#[test]
fn parses_a_plain_file_uri() {
    assert_eq!(from_uri("file:///home/u/report.pdf"), Some(path("/home/u/report.pdf")));
    assert_eq!(from_uri("file:/etc/hosts"), Some(path("/etc/hosts")));
    assert_eq!(from_uri("file://localhost/etc/hosts"), Some(path("/etc/hosts")));
    assert_eq!(from_uri("FILE:///etc/hosts"), Some(path("/etc/hosts")));
}

#[test]
fn percent_decodes_spaces_and_punctuation() {
    assert_eq!(
        from_uri("file:///home/u/My%20Report%20(final).pdf"),
        Some(path("/home/u/My Report (final).pdf"))
    );
    assert_eq!(from_uri("file:///tmp/a%23b%25c.txt"), Some(path("/tmp/a#b%c.txt")));
}

#[test]
fn percent_decodes_non_ascii_as_bytes() {
    assert_eq!(from_uri("file:///home/u/caf%C3%A9.txt"), Some(path("/home/u/café.txt")));
    assert_eq!(
        from_uri("file:///home/u/%E6%97%A5%E6%9C%AC%E8%AA%9E.md"),
        Some(path("/home/u/日本語.md"))
    );
    let latin1 = from_uri("file:///tmp/caf%E9.txt").expect("byte path");
    assert_eq!(latin1.as_bytes(), b"/tmp/caf\xE9.txt");
}

#[test]
fn malformed_escapes_are_left_alone() {
    assert_eq!(percent_decode("100%"), b"100%");
    assert_eq!(percent_decode("a%2"), b"a%2");
    assert_eq!(percent_decode("a%ZZb"), b"a%ZZb");
    assert_eq!(percent_decode("%41%42"), b"AB");
}

#[test]
fn rejects_uris_that_are_not_local_files() {
    for uri in [
        "https://example.com/report.pdf",
        "http://example.com/",
        "smb://server/share/file.txt",
        "sftp://host/home/u/x",
        "trash:///report.pdf",
        "recent:///",
        "data:text/plain,hello",
    ] {
        assert_eq!(is_candidate(uri), None, "{uri} must not be treated as a path");
    }
    assert_eq!(from_uri("file://fileserver/share/x.txt"), None);
    assert_eq!(from_uri("file://relative/../x"), None);
    assert_eq!(from_uri("file:///tmp/a%00b"), None);
    assert_eq!(from_uri("notfile:///tmp/x"), None);
}

#[test]
fn rejects_text_that_is_not_a_path() {
    for text in [
        "",
        "   ",
        "just some copied text",
        "relative/path.txt",
        "./also/relative",
        "Lorem ipsum dolor sit amet",
        "12345",
    ] {
        assert_eq!(is_candidate(text), None, "{text:?} must not be a candidate");
    }
    assert_eq!(is_candidate("/home/u/notes:2024/x.md"), Some(path("/home/u/notes:2024/x.md")));
}

#[test]
fn takes_the_first_usable_line_of_many() {
    let first = "/tmp/sekio/first file.txt";
    let second = "/tmp/sekio/second.txt";
    let here = |p: &FilePath| p == &path(first) || p == &path(second);

    let text = format!("{}\n{}\n", uri_for(first), uri_for(second));
    assert_eq!(first_usable(&text, here), Some(path(first)));

    let text = format!(
        "copy\nfile:///definitely/not/here/at/all\n{}\n{}",
        uri_for(second),
        uri_for(first)
    );
    assert_eq!(first_usable(&text, here), Some(path(second)));

    let text = format!("\r\n\r\n{first}\r\n");
    assert_eq!(first_usable(&text, here), Some(path(first)));
}

#[test]
fn nothing_usable_yields_nothing() {
    let tmp = path("/tmp");
    let here = |p: &FilePath| p == &path("/tmp");
    assert_eq!(first_usable("", here), None);
    assert_eq!(first_usable("some text\nmore text\n", here), None);
    assert_eq!(first_usable("file:///definitely/not/here/at/all", here), None);
    assert_eq!(first_usable(&uri_for("/tmp"), here), Some(tmp));
}

#[test]
fn a_huge_clipboard_is_bounded() {
    let mut text = "not a path\n".repeat(10_000);
    text.push_str("/etc\n");
    assert_eq!(first_usable(&text, |_: &FilePath| true), None);
}

#[test]
fn bare_names_accept_only_a_plain_filename() {
    assert_eq!(bare_name("report.pdf"), Some(path("report.pdf")));
    assert_eq!(bare_name("  My Photo.png  \nsecond line"), Some(path("My Photo.png")));
    for text in [
        "",
        "   ",
        "sub/dir.txt",
        "/absolute/path",
        ".",
        "..",
        "file:///tmp/x",
        "https://example.com",
    ] {
        assert_eq!(bare_name(text), None, "{text:?} must not be a bare name");
    }
    assert!(bare_name(&"a".repeat(MAX_NAME_LEN)).is_some());
    assert_eq!(bare_name(&"a".repeat(MAX_NAME_LEN + 1)), None);
    assert_eq!(bare_name("bell\u{7}.txt"), None);
}

#[test]
fn extracts_strings_from_both_dbus_reply_formats() {
    let gdbus = "(<['file:///home/u/Documents', 'file:///home/u/Pictures']>,)\n";
    assert_eq!(
        strings(quoted_strings(gdbus)),
        vec!["file:///home/u/Documents".to_string(), "file:///home/u/Pictures".to_string()]
    );
    let apostrophe = r#"(<["file:///home/u/Bob's Files"]>,)"#;
    assert_eq!(
        strings(quoted_strings(apostrophe)),
        vec!["file:///home/u/Bob's Files".to_string()]
    );
    let dbus_send = "array [\n   string \"file:///home/u/Downloads\"\n]\n";
    assert_eq!(
        strings(quoted_strings(dbus_send)),
        vec!["file:///home/u/Downloads".to_string()]
    );
    assert_eq!(strings(quoted_strings("'unfinished")), Vec::<String>::new());
    assert_eq!(strings(quoted_strings("")), Vec::<String>::new());
    assert_eq!(strings(quoted_strings(r"'a\'b'")), vec!["a'b".to_string()]);
}

#[test]
fn finds_a_binary_that_exists_on_path() {
    let dirs = vec![path(""), path("/usr/local/bin"), path("/bin"), path("/usr/bin")];
    let there = |p: &FilePath| p == &path("/bin/sh") || p == &path("/usr/bin/sh");
    assert_eq!(find_on_path(&dirs, "sh", there), Some(path("/bin/sh")));
}

#[test]
fn returns_none_for_a_nonsense_binary() {
    let dirs = vec![path("/bin"), path("/usr/bin")];
    let there = |p: &FilePath| p == &path("/bin/sh");
    assert!(find_on_path(&dirs, "sekio-definitely-not-a-real-binary-xyzzy", there).is_none());
    assert!(find_on_path(&dirs, "", |_: &FilePath| true).is_none());
    assert!(find_on_path(&vec![path("")], "sh", |_: &FilePath| true).is_none());
}

fn clipboard(tool: Tool) -> Option<Clipboard> {
    Some(Clipboard { tool, bin: path("/bin/tool") })
}

#[test]
fn describes_itself_without_lying() {
    for (tool, name) in
        [(Tool::WlPaste, "wl-paste"), (Tool::Xclip, "xclip"), (Tool::Xsel, "xsel")]
    {
        for bus in [None, Some(Bus { tool: BusTool::Gdbus, bin: path("/bin/gdbus") })] {
            let described = Desktop::new(clipboard(tool), bus).describe();
            assert!(described.starts_with("Linux desktop"), "{described}");
            assert!(described.contains(name), "{described}");
        }
    }
    let described = Desktop::new(None, None).describe();
    assert!(described.starts_with("Linux desktop"), "{described}");
    assert!(described.contains("unavailable"), "{described}");
}

#[test]
fn a_bare_name_resolves_against_an_open_folder() {
    let reply = "(<['file:///tmp/sekio']>,)\n";
    let dirs = open_folders(reply, |p: &FilePath| p == &path("/tmp/sekio"));
    assert_eq!(dirs, vec![path("/tmp/sekio")]);
    let there = |p: &FilePath| p == &path("/tmp/sekio/photo.png");
    assert_eq!(resolve_bare_name("photo.png", &dirs, there), Some(path("/tmp/sekio/photo.png")));
    assert_eq!(resolve_bare_name("other.png", &dirs, there), None);
    assert_eq!(resolve_bare_name("../photo.png", &dirs, |_: &FilePath| true), None);
    assert!(says_owned("(true,)\n"));
    assert!(!says_owned("(false,)\n"));
}

#[test]
fn the_programs_are_picked_by_the_session() {
    let here = || Some(path("/bin/x"));
    let tool = |c: Option<Clipboard>| c.map(|c| c.tool);
    assert_eq!(
        tool(Clipboard::detect(true, true, here(), here(), here())),
        Some(Tool::WlPaste)
    );
    assert_eq!(tool(Clipboard::detect(true, true, None, here(), here())), Some(Tool::Xclip));
    assert_eq!(tool(Clipboard::detect(false, true, here(), None, here())), Some(Tool::Xsel));
    assert_eq!(tool(Clipboard::detect(false, false, here(), here(), here())), None);
    assert!(Bus::detect(true, here(), None).is_some());
    assert!(Bus::detect(true, None, here()).is_some());
    assert!(Bus::detect(false, here(), here()).is_none());
    assert!(Bus::detect(true, None, None).is_none());
}

#[test]
fn the_programs_are_asked_for_the_right_buffer() {
    let primary = read_args(Tool::Xclip, Buffer::Primary, Target::Text);
    let copied = read_args(Tool::Xclip, Buffer::Clipboard, Target::Text);
    let uris = read_args(Tool::Xclip, Buffer::Primary, Target::UriList);
    assert_ne!(primary, copied);
    assert_ne!(primary, uris);
    assert!(uris.iter().any(|a| a == "text/uri-list"), "{uris:?}");
    let name = "org.freedesktop.FileManager1";
    assert!(owner_args(BusTool::Gdbus, name).iter().any(|a| a.contains(name)));
    assert!(owner_args(BusTool::DbusSend, name).iter().any(|a| a.contains(name)));
    assert!(folder_args(BusTool::Gdbus).iter().any(|a| a.contains("OpenLocations")));
    assert!(folder_args(BusTool::DbusSend).iter().any(|a| a.contains("OpenLocations")));
}

#[test]
fn a_lookup_tries_the_selection_then_the_clipboard() {
    let nowhere = |_: &FilePath| false;
    let mut lookup = Lookup::new(Tool::Xclip, true);
    assert_eq!(lookup.ask(), Ask::Read(Buffer::Primary, Target::Text));
    lookup.read(Some("photo.png".to_string()), nowhere);
    assert_eq!(lookup.ask(), Ask::Read(Buffer::Primary, Target::UriList));
    lookup.read(None, nowhere);
    assert_eq!(lookup.ask(), Ask::Read(Buffer::Clipboard, Target::Text));
    lookup.read(None, nowhere);
    assert_eq!(lookup.ask(), Ask::Owner);
    lookup.owner(Some("(true,)".to_string()));
    assert_eq!(lookup.ask(), Ask::Folders);
    lookup.folders(
        Some("(<['file:///home/x', 'file:///home/y']>,)".to_string()),
        |_: &FilePath| true,
        |p: &FilePath| p == &path("/home/y/photo.png"),
    );
    assert_eq!(lookup.ask(), Ask::Nothing);
    let found = lookup.found().expect("it is in the second folder");
    assert_eq!(found.path, path("/home/y/photo.png"));
    assert_eq!(found.origin, Origin::FileManager);

    let mut empty = Lookup::new(Tool::Xsel, true);
    empty.read(None, nowhere);
    empty.read(None, nowhere);
    assert_eq!(empty.ask(), Ask::Nothing);
    assert!(empty.found().is_none());
}

#[test]
fn a_path_in_a_buffer_ends_the_search() {
    let mut lookup = Lookup::new(Tool::WlPaste, true);
    lookup.read(Some("file:///a/gone\n/a/here\n".to_string()), |p: &FilePath| p == &path("/a/here"));
    assert_eq!(lookup.ask(), Ask::Nothing);
    let found = lookup.found().expect("the second line is a file");
    assert_eq!(found.path, path("/a/here"));
    assert_eq!(found.origin, Origin::Clipboard);
}

#[test]
fn a_file_manager_that_is_not_running_is_not_started() {
    let nowhere = |_: &FilePath| false;
    for (bus, reply) in [(true, Some("(false,)")), (true, None), (false, None)] {
        let mut lookup = Lookup::new(Tool::Xsel, bus);
        lookup.read(Some("photo.png".to_string()), nowhere);
        lookup.read(None, nowhere);
        assert_eq!(lookup.ask() == Ask::Owner, bus);
        if bus {
            lookup.owner(reply.map(str::to_string));
        }
        assert_eq!(lookup.ask(), Ask::Nothing);
        assert!(lookup.found().is_none());
    }
}

#[test]
fn the_platform_source_describes_itself() {
    assert!(!Desktop::new(None, None).describe().is_empty());
    assert!(!Explorer::new().describe().is_empty());
}

#[test]
fn usable_rejects_non_paths_and_relatives() {
    let here = |_: &FilePath| true;
    assert!(!usable(&path("just some copied text"), here));
    assert!(!usable(&path("relative/path"), here));
    assert!(!usable(&path("/definitely/not/here/at/all"), |_: &FilePath| false));
}

#[test]
fn usable_accepts_a_real_absolute_path() {
    assert!(usable(&path("/tmp"), |p: &FilePath| p == &path("/tmp")));
    let found = Selection::new(path("/tmp"), Origin::Clipboard);
    assert_eq!(found.path, path("/tmp"));
    assert_eq!(found.origin, Origin::Clipboard);
}

#[test]
fn usable_goes_by_the_platform() {
    let here = |_: &FilePath| true;
    let at = |s: &str| FilePath::new_on(Platform::Windows, s);
    assert!(usable(&at(r"C:\x"), here));
    assert!(usable(&at(r"\\host\share"), here));
    assert!(usable(&at("//host/share"), here));
    assert!(!usable(&at(r"C:\x"), |_: &FilePath| false));
    assert!(!usable(&at("/tmp"), here));
    assert!(!usable(&path(r"C:\x"), here));
    assert!(usable(&path("/tmp"), here));
}

#[test]
fn a_program_has_its_own_time_and_no_more_than_the_search() {
    assert_eq!((TOTAL_BUDGET, CHILD_TIMEOUT, POLL_INTERVAL), (200, 100, 2));
    let deadline = search_deadline(1000);
    assert_eq!(deadline, 1200);
    assert_eq!(child_limit(1000, deadline), Some(1100));
    assert_eq!(child_limit(1100, deadline), Some(1200));
    assert_eq!(child_limit(1150, deadline), Some(1200), "the search ends first");
    assert_eq!(child_limit(1199, deadline), Some(1200));
    assert_eq!(child_limit(1200, deadline), None, "too late to start one");
    assert_eq!(child_limit(1300, deadline), None);
}

#[test]
fn a_program_is_looked_after_until_its_time_is_up() {
    assert_eq!(child_step(Polled::Running, 1099, 1100), Step::Nap(2));
    assert_eq!(child_step(Polled::Running, 1100, 1100), Step::Kill);
    assert_eq!(child_step(Polled::Exited(true), 1099, 1100), Step::End(true));
    assert_eq!(child_step(Polled::Exited(false), 1099, 1100), Step::End(false));
    assert_eq!(child_step(Polled::Exited(true), 1101, 1100), Step::End(true));
    assert_eq!(child_step(Polled::Lost, 1000, 1100), Step::Kill);
}

#[test]
fn the_first_that_passes_ends_the_search() {
    let asked = Cell::new(0);
    let paths = vec![path("/a"), path("/b"), path("/c")];
    let found = first_that(paths, |p: &FilePath| {
        asked.set(asked.get() + 1);
        p == &path("/b")
    });
    assert_eq!(found, Some(path("/b")));
    assert_eq!(asked.get(), 2);
    let paths = vec![path("/a"), path("/b"), path("/c")];
    assert_eq!(those_that(paths, 2, |p: &FilePath| p != &path("/a")), vec![path("/b"), path("/c")]);
}

fn pick(items: Vec<Option<FilePath>>, usable: impl Fn(&FilePath) -> bool) -> Option<FilePath> {
    let count = items.len();
    pick_previewable(count, |i: usize| items[i].as_ref().map(|p| p.copy()), usable)
}

fn anything(_: &FilePath) -> bool {
    true
}

fn item(s: &str) -> Option<FilePath> {
    Some(path(s))
}

#[test]
fn an_empty_selection_yields_none() {
    assert_eq!(pick(Vec::new(), anything), None);
}

#[test]
fn a_single_item_is_returned() {
    assert_eq!(pick(vec![item(r"C:\notes\a.md")], anything), Some(path(r"C:\notes\a.md")));
}

#[test]
fn the_first_of_several_is_chosen() {
    let picked = pick(
        vec![item(r"C:\notes\a.md"), item(r"C:\notes\b.md"), item(r"C:\notes\c.md")],
        anything,
    );
    assert_eq!(picked, Some(path(r"C:\notes\a.md")));
}

#[test]
fn a_non_filesystem_item_is_rejected() {
    assert_eq!(pick(vec![None], anything), None);
}

#[test]
fn a_non_filesystem_item_does_not_hide_a_real_one() {
    assert_eq!(pick(vec![None, item(r"C:\notes\b.md")], anything), Some(path(r"C:\notes\b.md")));
}

#[test]
fn a_selection_of_only_virtual_items_yields_none() {
    assert_eq!(pick(vec![None, None, None], anything), None);
}

#[test]
fn an_unusable_path_is_skipped() {
    let usable = |p: &FilePath| p.display().starts_with(r"C:\real");
    let picked = pick(vec![item(r"C:\ghost\gone.md"), item(r"C:\real\here.md")], usable);
    assert_eq!(picked, Some(path(r"C:\real\here.md")));
}

#[test]
fn nothing_usable_yields_none() {
    assert_eq!(pick(vec![item(r"C:\ghost\gone.md")], |_: &FilePath| false), None);
}

#[test]
fn the_scan_is_bounded_and_lazy() {
    let resolved = Cell::new(0usize);
    let late = |i: usize| {
        resolved.set(resolved.get() + 1);
        if i == MAX_CANDIDATES {
            item(r"C:\notes\late.md")
        } else {
            None
        }
    };
    assert_eq!(pick_previewable(MAX_CANDIDATES + 10, late, anything), None);
    assert_eq!(resolved.get(), MAX_CANDIDATES);

    let resolved = Cell::new(0usize);
    let first = |_: usize| {
        resolved.set(resolved.get() + 1);
        item(r"C:\notes\a.md")
    };
    assert!(pick_previewable(MAX_CANDIDATES, first, anything).is_some());
    assert_eq!(resolved.get(), 1, "resolution must stop at the first hit");
}

#[test]
fn a_null_window_never_owns_focus() {
    assert!(!owns_focus(0, 0x1234, || true));
    assert!(!owns_focus(0, 0, || true));
}

#[test]
fn the_focused_window_owns_itself() {
    assert!(owns_focus(0x1234, 0x1234, || false));
    assert!(owns_focus(0x99, 0x1234, || true));
    assert!(!owns_focus(0x99, 0x1234, || false));
}

#[test]
fn the_strategy_names_itself() {
    assert_eq!(Explorer::new().describe(), "Windows Explorer (COM)");
}

#[test]
fn what_a_program_wrote_is_read_as_text() {
    assert_eq!(output_text("/tmp/ü.txt\n".as_bytes()), "/tmp/ü.txt\n");
    assert_eq!(output_text(b"a\xffb"), "a\u{fffd}b");
}
