use sekio_gui::path::FilePath;
use sekio_gui::scan::{no_later, sorted};
use sekio_gui::selection::linux::{
    candidates, hex_digit, resolve_bare_name, scheme_of, strip_prefix_ignore_ascii_case,
};
use sekio_gui::state::human_size;
use sekio_gui::text::{
    chars_of, find_char, fold, is_white_space, lines_of, push_decimal, same_text, split_on,
    string_of, to_lower_char, trim,
};

fn path(s: &str) -> FilePath {
    FilePath::new(s)
}

fn strings(v: Vec<Vec<char>>) -> Vec<String> {
    v.into_iter().map(|cs| cs.into_iter().collect()).collect()
}

#[test]
fn white_space_is_what_the_standard_library_says() {
    for c in '\0'..=char::MAX {
        assert_eq!(is_white_space(c), c.is_whitespace(), "{c:?}");
        assert_eq!(to_lower_char(c), c.to_ascii_lowercase(), "{c:?}");
    }
}

#[test]
fn text_is_cut_as_the_standard_library_cuts_it() {
    for s in ["", " ", "a", " a b\t", "\u{3000}é\u{a0}", "x\r\n", "\n\n", "a\nb\r\nc", "a\r\nb\r", "\r"] {
        let cs = chars_of(s);
        assert_eq!(string_of(&cs), s);
        assert_eq!(string_of(trim(&cs)), s.trim(), "{s:?}");
        assert_eq!(strings(lines_of(&cs)), s.lines().collect::<Vec<_>>(), "{s:?}");
        assert_eq!(strings(split_on(&cs, '\n')), s.split('\n').collect::<Vec<_>>(), "{s:?}");
        assert_eq!(string_of(&fold(s)), s.trim().to_ascii_lowercase(), "{s:?}");
        let at = s.chars().position(|c| c == '\n').unwrap_or(s.chars().count());
        assert_eq!(find_char(&cs, '\n', 0), at, "{s:?}");
    }
    assert!(same_text("é", "é"));
    assert!(!same_text("e", "é"));
}

#[test]
fn numbers_are_written_in_decimal() {
    for n in [0, 7, 10, 4096, u64::MAX] {
        let mut out = chars_of("n=");
        push_decimal(&mut out, n);
        assert_eq!(string_of(&out), format!("n={n}"));
    }
}

#[test]
fn sizes_are_rounded_to_one_digit() {
    assert_eq!(human_size(0), "0 B");
    assert_eq!(human_size(1023), "1023 B");
    assert_eq!(human_size(1536), "1.5 KB");
    assert_eq!(human_size(5 * 1024 * 1024), "5.0 MB");
}

#[test]
fn paths_sort_as_the_standard_library_sorts_them() {
    let all = ["", ".", "..", "/", "/a", "/a/b", "/a-b", "/a.b", "a", "a/b", "a//b", "b", "./a", "/a/../b"];
    for a in all {
        for b in all {
            let wanted = std::path::Path::new(a) <= std::path::Path::new(b);
            assert_eq!(no_later(&path(a), &path(b)), wanted, "{a:?} {b:?}");
        }
    }
    let given = vec![path("/d/c"), path("/d/a"), path("/d/b"), path("/d/a")];
    let names: Vec<String> = sorted(&given).iter().map(FilePath::display).collect();
    assert_eq!(names, ["/d/a", "/d/a", "/d/b", "/d/c"]);
}

#[test]
fn a_scheme_is_what_stands_before_the_colon() {
    let scheme = |s: &str| scheme_of(&chars_of(s)).map(string_of);
    assert_eq!(scheme("file:///a"), Some("file".to_owned()));
    assert_eq!(scheme("x-y.z+1:rest"), Some("x-y.z+1".to_owned()));
    assert_eq!(scheme("1a:rest"), None);
    assert_eq!(scheme("a b:rest"), None);
    assert_eq!(scheme(":rest"), None);
    assert_eq!(scheme("rest"), None);
    let rest = strip_prefix_ignore_ascii_case(&chars_of("FILE://x"), "file://").map(string_of);
    assert_eq!(rest, Some("x".to_owned()));
    assert_eq!(strip_prefix_ignore_ascii_case(&chars_of("fil"), "file"), None);
    assert_eq!(hex_digit(b'0'), Some(0));
    assert_eq!(hex_digit(b'f'), Some(15));
    assert_eq!(hex_digit(b'A'), Some(10));
    assert_eq!(hex_digit(b'g'), None);
}

#[test]
fn a_clipboard_is_read_line_by_line() {
    let found = candidates("copy\nfile:///a%20b\n/c\nrelative\n");
    let names: Vec<String> = found.iter().map(FilePath::display).collect();
    assert_eq!(names, ["/a b", "/c"]);
    assert!(candidates(&"/x\n".repeat(40)).len() <= 32);
}

#[test]
fn a_plain_name_does_not_lead_out_of_its_folder() {
    let dirs = vec![path("/home/x")];
    let anything = |_: &FilePath| true;
    assert_eq!(resolve_bare_name("a.txt", &dirs, anything), Some(path("/home/x/a.txt")));
    assert_eq!(resolve_bare_name("..a", &dirs, anything), Some(path("/home/x/..a")));
    for name in [".", "..", "../a", "/etc/passwd", "a/b", ""] {
        assert_eq!(resolve_bare_name(name, &dirs, anything), None, "{name:?}");
    }
}
