use sekio_gui::config::Platform;
use sekio_gui::console::{attach, describe as describe_console, device, needs_rebind, Attached, StdHandle};
use sekio_gui::dialog::{
    availability_from, describe, evidence, on_path, Availability, Probe, NO_DIALOG,
};
use sekio_gui::fonts::{with_fallback, with_fallbacks, MONO, SANS};
use sekio_gui::icon::{decode, icon_from, MAX_DIM};
use sekio_gui::path::FilePath;

#[test]
fn a_handle_that_points_nowhere_is_rebound() {
    assert!(needs_rebind(StdHandle::default()));
}

#[test]
fn a_redirected_handle_is_left_alone() {
    assert!(!needs_rebind(StdHandle { set: true, live: true }));
}

#[test]
fn a_stale_inherited_handle_is_rebound() {
    assert!(needs_rebind(StdHandle { set: true, live: false }));
}

#[test]
fn attaching_off_windows_does_nothing_and_says_so() {
    assert_eq!(attach(Platform::Unix, false), Attached::NotWindows);
    assert_eq!(attach(Platform::Unix, true), Attached::NotWindows);
    assert_eq!(attach(Platform::Windows, true), Attached::Parent);
    assert_eq!(attach(Platform::Windows, false), Attached::NoConsole);
}

#[test]
fn every_outcome_describes_itself() {
    for attached in [Attached::NotWindows, Attached::Parent, Attached::NoConsole] {
        assert!(!describe_console(attached).is_empty());
    }
    assert!(describe_console(Attached::NoConsole).contains("Explorer"));
    assert_eq!(device(Attached::NotWindows), None);
    assert_eq!(device(Attached::Parent), Some("CONOUT$"));
    assert_eq!(device(Attached::NoConsole), Some("NUL"));
}

#[test]
fn windows_always_has_a_dialog() {
    assert_eq!(
        availability_from(Probe { built_in: true, session_bus: false, zenity: false }),
        Availability::Native
    );
}

#[test]
fn a_portal_or_zenity_is_enough_on_linux() {
    let portal = Probe { built_in: false, session_bus: true, zenity: false };
    let zenity = Probe { built_in: false, session_bus: false, zenity: true };
    assert_eq!(availability_from(portal), Availability::Native);
    assert_eq!(availability_from(zenity), Availability::Native);
}

#[test]
fn with_neither_the_browser_takes_over() {
    let bare = Probe::default();
    match availability_from(bare) {
        Availability::Unavailable(reason) => {
            assert!(
                reason.contains("built-in browser"),
                "the reason must point at the fallback: {reason}"
            );
        }
        Availability::Native => panic!("a bare session has no native dialog"),
    }
    assert_eq!(describe(availability_from(bare)), NO_DIALOG);
}

#[test]
fn probing_this_machine_never_panics() {
    for bits in 0..8 {
        let probe =
            Probe { built_in: bits & 1 != 0, session_bus: bits & 2 != 0, zenity: bits & 4 != 0 };
        let found = evidence(probe);
        assert_eq!(found[0].0, "portal");
        assert_eq!(found[1].0, "zenity");
        assert_eq!(availability_from(probe) == Availability::Native, bits != 0);
    }
}

fn names(v: &[&str]) -> Vec<String> {
    v.iter().map(|s| s.to_string()).collect()
}

#[test]
fn the_fallbacks_go_last_in_both_families() {
    let proportional = names(&["Ubuntu-Light", "NotoEmoji-Regular"]);
    let monospace = names(&["Hack"]);
    let (p, m) = with_fallbacks(proportional.clone(), monospace.clone());
    assert_eq!(p.last().map(String::as_str), Some(SANS));
    assert_eq!(m.last().map(String::as_str), Some(MONO));
    assert_eq!(&p[..proportional.len()], &proportional[..]);
    assert_eq!(&m[..monospace.len()], &monospace[..]);
}

#[test]
fn installing_twice_does_not_stack_the_fallback_up() {
    let (p, m) = with_fallbacks(names(&["a"]), names(&["b"]));
    assert_eq!(with_fallbacks(p.clone(), m.clone()), (p, m));
    assert_eq!(with_fallback(names(&["x", "y"]), "x"), names(&["x", "y"]));
}

fn png(width: u32, height: u32) -> Vec<u8> {
    let picture = image::RgbaImage::from_fn(width, height, |x, y| {
        let n = x.wrapping_mul(2654435761).wrapping_add(y.wrapping_mul(40503));
        image::Rgba([n as u8, (n >> 8) as u8, (n >> 16) as u8, if x < y { 0 } else { 255 }])
    });
    let mut out = std::io::Cursor::new(Vec::new());
    picture.write_to(&mut out, image::ImageFormat::Png).expect("encode");
    out.into_inner()
}

#[test]
fn a_png_decodes_to_its_pixels() {
    let icon = decode(&png(64, 48)).expect("a good PNG must decode");
    assert_eq!((icon.width, icon.height), (64, 48));
    assert_eq!(icon.rgba.len(), 64 * 48 * 4);
    let alpha: Vec<u8> = icon.rgba.chunks(4).map(|px| px[3]).collect();
    assert!(alpha.contains(&0), "no transparent background");
    assert!(alpha.iter().any(|&a| a > 250), "nothing opaque was drawn");
    let n = 5u32.wrapping_mul(2654435761).wrapping_add(2u32.wrapping_mul(40503));
    let at = (2 * 64 + 5) * 4;
    assert_eq!(&icon.rgba[at..at + 3], &[n as u8, (n >> 8) as u8, (n >> 16) as u8]);
}

#[test]
fn a_picture_that_is_too_large_is_no_icon() {
    assert!(decode(&png(MAX_DIM, 1)).is_some());
    assert!(decode(&png(MAX_DIM + 1, 1)).is_none());
    assert!(decode(&png(1, MAX_DIM + 1)).is_none());
}

#[test]
fn garbage_decodes_to_none_without_panicking() {
    assert!(decode(b"not a png at all").is_none());
}

#[test]
fn empty_input_decodes_to_none() {
    assert!(decode(&[]).is_none());
}

#[test]
fn truncated_png_decodes_to_none() {
    let whole = png(64, 64);
    let half = &whole[..whole.len() / 2];
    assert!(decode(half).is_none());
}

#[test]
fn corrupt_pixel_data_decodes_to_none() {
    let mut corrupted = png(64, 64);
    for byte in corrupted.iter_mut().skip(64) {
        *byte = 0xff;
    }
    assert!(decode(&corrupted).is_none());
}

#[test]
fn signature_only_decodes_to_none() {
    assert!(decode(b"\x89PNG\r\n\x1a\n").is_none());
}

#[test]
fn a_picture_without_its_bytes_is_no_icon() {
    assert!(icon_from(None).is_none());
    assert!(icon_from(Some((0, 4, Vec::new()))).is_none());
    assert!(icon_from(Some((4, 0, Vec::new()))).is_none());
    assert!(icon_from(Some((2, 2, vec![0; 15]))).is_none());
    assert!(icon_from(Some((2, 2, vec![0; 16]))).is_some());
    assert!(icon_from(Some((u32::MAX, u32::MAX, vec![0; 4]))).is_none());
}

#[test]
fn paths_are_compared_by_their_components() {
    let p = FilePath::new;
    assert_eq!(p("/a//b/"), p("/a/./b"));
    assert_ne!(p("/a/b"), p("a/b"));
    assert_ne!(p("/a/../b"), p("/b"));
    assert_eq!(p("/a").join(&p("b")), p("/a/b"));
    assert_eq!(p("/a").join(&p("/b")), p("/b"));
    assert_eq!(p("/a/b/c").strip_prefix(&p("/a")), Some(p("b/c")));
    assert_eq!(p("/a/b").strip_prefix(&p("/c")), None);
    assert_eq!(p("/a/b").file_name(), Some(p("b")));
    assert_eq!(p("/a/..").file_name(), None);
    assert_eq!(p("/").parent(), None);
    assert_eq!(p("/a/b").parent(), Some(p("/a")));
    assert_eq!(p("/é").to_str(), Some("/é".to_string()));
    assert_eq!(FilePath::from_bytes(vec![0x2f, 0xff]).to_str(), None);
    assert_eq!(FilePath::from_bytes(vec![0x2f, 0xff]).display(), "/\u{fffd}");
    for s in ["/", "", ".", "..", "a/b", "/a/b/", "//x", "./a", "a/./b", "/a/../b/."] {
        let std = std::path::Path::new(s);
        let own = p(s);
        assert_eq!(own.is_absolute(), std.is_absolute(), "{s:?}");
        assert_eq!(
            own.parent().map(|q| q.display()),
            std.parent().map(|q| q.display().to_string()),
            "{s:?}"
        );
        assert_eq!(
            own.file_name().map(|q| q.display()),
            std.file_name().map(|q| q.to_string_lossy().into_owned()),
            "{s:?}"
        );
    }
}

#[test]
fn a_program_is_on_the_path_where_there_is_such_a_file() {
    let dirs = vec![FilePath::new("/bin"), FilePath::new("/usr/bin"), FilePath::new("")];
    let at = |wanted: &'static str| move |p: &FilePath| p == &FilePath::new(wanted);
    assert!(on_path(&dirs, "zenity", at("/usr/bin/zenity")));
    assert!(on_path(&dirs, "zenity", at("zenity")), "an empty entry is the working directory");
    assert!(!on_path(&dirs, "zenity", at("/opt/zenity")));
    assert!(!on_path(&Vec::new(), "zenity", |_: &FilePath| true));
}
