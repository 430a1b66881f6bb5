use sekio_gui::daemon::name::{fnv1a, sanitize, tag, tag_session};
use sekio_gui::daemon::unix::{
    after_bind, after_probe, session_id, socket_name, socket_path_for, unreachable_socket,
    BindOutcome, BindStage, BindStep, ProbeStep, SocketGuard, SocketIdent,
};
use sekio_gui::config::Platform;
use sekio_gui::daemon::windows::{
    after_open, after_wait, code_of, is_absent, is_connected, is_serving, is_taken, next_nap,
    pipe_name, Conversation, Opening, Turn, CONNECT_WAIT_MS, ERROR_ACCESS_DENIED,
    ERROR_BROKEN_PIPE, ERROR_FILE_NOT_FOUND, ERROR_NO_DATA, ERROR_PATH_NOT_FOUND,
    ERROR_PIPE_BUSY, ERROR_PIPE_CONNECTED, ERROR_PIPE_NOT_CONNECTED, FIRST_NAP, IO_TIMEOUT,
    MAX_NAP,
};
use sekio_gui::daemon::{
    acknowledged, answer, encode_request, handoff_message, parse_request, parse_request_on,
    read_request, read_request_on, Accepted, Handoff, ProtocolError, Request, Serving,
    MAX_ACCEPT_ERRORS, MAX_MESSAGE,
};
use sekio_gui::path::FilePath;

fn absolute(name: &str) -> FilePath {
    FilePath::new(&format!("/tmp/{name}"))
}

fn preview(path: &FilePath) -> Request {
    Request::Preview(path.copy())
}

#[test]
fn valid_path_round_trips() {
    let path = absolute("a file.txt");
    let encoded = encode_request(&preview(&path)).expect("encode");
    assert_eq!(encoded.last(), Some(&b'\n'), "one line per connection");
    assert_eq!(read_request(&encoded[..]).expect("decode"), Request::Preview(path));
}

#[test]
fn show_round_trips_and_cannot_collide_with_a_path() {
    let encoded = encode_request(&Request::Show).expect("encode");
    assert_eq!(encoded, b"show\n");
    assert_eq!(read_request(&encoded[..]).expect("decode"), Request::Show);
    assert_eq!(parse_request(b"show\r\n"), Ok(Request::Show));

    let named = absolute("show");
    let encoded = encode_request(&preview(&named)).expect("encode");
    assert_eq!(read_request(&encoded[..]).expect("decode"), Request::Preview(named));
    assert_eq!(parse_request(b"./show\n"), Err(ProtocolError::NotAbsolute));
}

#[test]
fn relative_paths_are_rejected_on_both_sides() {
    assert_eq!(
        encode_request(&preview(&FilePath::new("relative/file.txt"))),
        Err(ProtocolError::NotAbsolute)
    );
    assert_eq!(parse_request(b"relative/file.txt\n"), Err(ProtocolError::NotAbsolute));
    assert_eq!(parse_request(b"./x\n"), Err(ProtocolError::NotAbsolute));
}

#[test]
fn oversized_input_is_rejected_without_unbounded_reads() {
    let mut flood = vec![b'a'; MAX_MESSAGE * 4];
    flood.push(b'\n');
    assert_eq!(read_request(&flood[..]), Err(ProtocolError::TooLong));
    let endless = vec![b'/'; MAX_MESSAGE * 4];
    assert_eq!(read_request(&endless[..]), Err(ProtocolError::TooLong));
    let oversized = vec![b'a'; MAX_MESSAGE + 1];
    assert_eq!(parse_request(&oversized), Err(ProtocolError::TooLong));
}

#[test]
fn non_utf8_and_empty_and_nul_are_rejected() {
    assert_eq!(read_request(&b"/tmp/\xff\xfe\n"[..]), Err(ProtocolError::NotUtf8));
    assert_eq!(read_request(&b"\n"[..]), Err(ProtocolError::Empty));
    assert_eq!(read_request(&b""[..]), Err(ProtocolError::Empty));
    assert_eq!(parse_request(b"/tmp/a\0b\n"), Err(ProtocolError::Unrepresentable));
    assert_eq!(
        encode_request(&preview(&absolute("two\nlines"))),
        Err(ProtocolError::Unrepresentable)
    );
}

#[test]
fn every_refusal_says_something_of_its_own() {
    let all = [
        ProtocolError::TooLong,
        ProtocolError::NotUtf8,
        ProtocolError::Empty,
        ProtocolError::Unrepresentable,
        ProtocolError::NotAbsolute,
    ];
    for (i, a) in all.iter().enumerate() {
        assert!(!a.message().is_empty());
        for b in &all[i + 1..] {
            assert_ne!(a.message(), b.message());
        }
    }
}

#[test]
fn the_listener_can_move_to_the_socket_thread() {
    fn assert_send<T: Send>() {}
    assert_send::<Serving>();
    assert_send::<SocketGuard>();
}

#[test]
fn tags_are_readable_stable_and_collision_free() {
    assert_eq!(tag("wayland-0"), tag("wayland-0"), "must be stable");
    assert_ne!(tag("wayland-0"), tag("wayland-1"));
    let a = tag("/run/user/1000/wayland-0");
    let b = tag("/run/user/1000/wayland-1");
    assert_ne!(a, b);
    assert!(tag(&"x".repeat(4000)).len() <= 25);
}

#[test]
fn a_tag_is_the_readable_part_and_a_hash() {
    assert_eq!(fnv1a(b""), 0xcbf2_9ce4_8422_2325);
    let mut hash: u64 = 0xcbf2_9ce4_8422_2325;
    for b in b"wayland-0" {
        hash ^= *b as u64;
        hash = hash.wrapping_mul(0x1000_0000_01b3);
    }
    assert_eq!(fnv1a(b"wayland-0"), hash);
    assert_eq!(sanitize("wayland-0"), "wayland-0");
    assert_eq!(sanitize("a/b c"), "a-b-c");
    assert!(tag("wayland-0").starts_with("wayland-0-"));
    assert_eq!(tag_session(Some("x")), tag("x"));
    assert_ne!(tag_session(None), tag_session(Some("x")));
}

#[test]
fn socket_path_prefers_xdg_runtime_dir() {
    let path = socket_path_for(
        Some(FilePath::new("/run/user/1000")),
        FilePath::new("/tmp"),
        1000,
        Some("wayland-0"),
    );
    assert_eq!(path.parent(), Some(FilePath::new("/run/user/1000")));
    let name = path.file_name().unwrap().display();
    assert!(name.starts_with("sekio-gui-1000-"), "uid must be in {name}");
    assert!(name.contains("wayland-0"), "session must be in {name}");
    assert!(name.ends_with(".sock"));
}

#[test]
fn socket_path_falls_back_to_temp_dir() {
    let unset = socket_path_for(None, FilePath::new("/tmp"), 7, Some(":0"));
    assert_eq!(unset.parent(), Some(FilePath::new("/tmp")));
    let relative = socket_path_for(
        Some(FilePath::new("run/user/7")),
        FilePath::new("/tmp"),
        7,
        Some(":0"),
    );
    assert_eq!(relative.parent(), Some(FilePath::new("/tmp")));
}

#[test]
fn socket_name_separates_users_and_sessions() {
    let a = socket_name(1000, Some("wayland-0"));
    let b = socket_name(1001, Some("wayland-0"));
    let c = socket_name(1000, Some("wayland-1"));
    let d = socket_name(1000, None);
    assert_ne!(a, b, "two users must not share a socket");
    assert_ne!(a, c, "two sessions must not share a socket");
    assert_ne!(a, d);
    assert_eq!(a, socket_name(1000, Some("wayland-0")), "must be stable");
    assert_ne!(
        socket_name(1000, Some("/run/user/1000/wayland-0")),
        socket_name(1000, Some("/run/user/1000/wayland-1")),
    );
}

#[test]
fn socket_name_stays_inside_sun_path() {
    let hostile = "x".repeat(4000);
    let name = socket_name(u32::MAX, Some(&hostile));
    assert!(name.len() < 64, "sun_path is 108 bytes, got {}", name.len());
    let stem = name.strip_suffix(".sock").expect("the ending");
    assert!(stem.chars().all(|c| c.is_ascii_lowercase() || c.is_ascii_digit() || c == '-'));
}

#[test]
fn a_session_is_known_by_its_display() {
    assert_eq!(
        session_id(Some("wayland-0".to_string()), Some(":0".to_string())),
        Some("wayland-0".to_string())
    );
    assert_eq!(session_id(None, Some(":0".to_string())), Some(":0".to_string()));
    assert_eq!(session_id(None, None), None);
}

#[test]
fn missing_socket_is_reported_as_unavailable() {
    let (handoff, remove) = unreachable_socket(false, false, "not found".to_string());
    assert_eq!(handoff, Handoff::Unavailable("not found".to_string()));
    assert!(!remove, "there is nothing to remove");
}

#[test]
fn stale_socket_is_detected_and_removed_by_the_client() {
    let (handoff, remove) = unreachable_socket(true, true, "refused".to_string());
    assert!(matches!(handoff, Handoff::Unavailable(_)));
    assert!(remove, "the stale socket must be cleaned up");
    let (_, remove) = unreachable_socket(true, false, "refused".to_string());
    assert!(!remove, "what is no socket is not ours to remove");
}

#[test]
fn bind_reclaims_a_stale_socket_and_yields_to_a_live_one() {
    assert!(matches!(after_bind(BindStage::First, BindOutcome::Bound), BindStep::Listen));
    assert!(matches!(after_bind(BindStage::First, BindOutcome::InUse), BindStep::Probe));
    assert!(matches!(after_probe(false, true), ProbeStep::Reclaim));
    assert!(matches!(after_probe(true, true), ProbeStep::AlreadyRunning));
    assert!(matches!(after_probe(false, false), ProbeStep::Fail(_)));
    assert!(
        matches!(after_bind(BindStage::Second, BindOutcome::InUse), BindStep::AlreadyRunning),
        "the loser of the race becomes a client"
    );
    assert!(matches!(
        after_bind(BindStage::First, BindOutcome::Failed("denied".to_string())),
        BindStep::Fail(_)
    ));
}

#[test]
fn guard_leaves_a_replacement_socket_alone() {
    let own = SocketIdent { dev: 1, ino: 2, ctime: 3, ctime_nsec: 4 };
    let other = SocketIdent { dev: 1, ino: 2, ctime: 3, ctime_nsec: 5 };
    let guard = SocketGuard::new(FilePath::new("/tmp/d.sock"), Some(own));
    assert_eq!(guard.path(), &FilePath::new("/tmp/d.sock"));
    assert_eq!(guard.ident(), Some(own));
    assert!(guard.release(Some(own)));
    assert!(!guard.release(Some(other)), "must not delete another daemon's socket");
    assert!(!guard.release(None));
    assert!(!SocketGuard::new(FilePath::new("/tmp/d.sock"), None).release(Some(own)));
}

#[test]
fn handoff_delivers_the_path_to_the_ui_channel() {
    let target = absolute("target.txt");
    let message = handoff_message(Platform::Unix, &preview(&target)).expect("a message");
    let answered = answer(read_request(&message));
    assert!(matches!(acknowledged(&answered.reply), Handoff::Delivered));
    let mut serving = Serving::new();
    assert_eq!(serving.accepted(answered.accepted), Some(Request::Preview(target)));
    assert!(matches!(
        handoff_message(Platform::Unix, &preview(&FilePath::new("x"))),
        Err(Handoff::Unavailable(_))
    ));
}

#[test]
fn what_cannot_be_handed_off_is_told_in_the_words_of_the_platform() {
    let why = |platform, path| match handoff_message(platform, &Request::Preview(path)) {
        Err(Handoff::Unavailable(why)) => why,
        other => panic!("{other:?}"),
    };
    assert_eq!(
        why(Platform::Unix, FilePath::new("x")),
        "cannot hand off this path: path is not absolute"
    );
    assert_eq!(
        why(Platform::Unix, FilePath::new("/a\nb")),
        "cannot hand off this path: path contains a NUL or newline"
    );
    assert_eq!(
        why(Platform::Windows, FilePath::new_on(Platform::Windows, "x")),
        "cannot hand off this request: path is not absolute"
    );
}

#[test]
fn liveness_probe_is_not_treated_as_a_bad_request() {
    let answered = answer(read_request(b""));
    assert_eq!(answered.accepted, Accepted::Probe);
    assert_eq!(answered.log, None);
}

#[test]
fn white_space_alone_is_an_empty_request() {
    for blank in [&b"   \n"[..], b" ", b"\t \r\n", b"\n\n", "\u{a0}\u{3000}\n".as_bytes()] {
        assert_eq!(parse_request(blank), Err(ProtocolError::Empty));
        assert_eq!(parse_request_on(Platform::Windows, blank), Err(ProtocolError::Empty));
    }
    assert_eq!(read_request(b"   \n/tmp/x\n"), Err(ProtocolError::Empty));
    let answered = answer(read_request(b"   \n"));
    assert_eq!(answered.accepted, Accepted::Probe);
    assert!(answered.reply.is_empty(), "a probe is not answered");
    assert_eq!(answered.log, None);
    assert_eq!(parse_request(b" x\n"), Err(ProtocolError::NotAbsolute));
    assert_eq!(parse_request(b" show\n"), Err(ProtocolError::NotAbsolute));
    assert_eq!(parse_request(b"/tmp/x \n"), Ok(preview(&FilePath::new("/tmp/x "))));
}

#[test]
fn a_path_is_absolute_by_the_rules_of_its_platform() {
    let name = r"C:\tmp\a file.txt";
    assert_eq!(encode_request(&preview(&FilePath::new(name))), Err(ProtocolError::NotAbsolute));
    let path = FilePath::new_on(Platform::Windows, name);
    let sent = encode_request(&preview(&path)).expect("encode");
    assert_eq!(sent, b"C:\\tmp\\a file.txt\n");
    assert_eq!(read_request_on(Platform::Windows, &sent), Ok(preview(&path)));
    assert_eq!(read_request(&sent), Err(ProtocolError::NotAbsolute));
    assert_eq!(
        parse_request_on(Platform::Windows, b"/tmp/x\n"),
        Err(ProtocolError::NotAbsolute)
    );
    assert_eq!(
        parse_request_on(Platform::Windows, b"//server/share/x\n"),
        Ok(preview(&FilePath::new_on(Platform::Windows, "//server/share/x")))
    );
    assert_eq!(
        parse_request_on(Platform::Windows, b"\\\\server\n"),
        Err(ProtocolError::NotAbsolute),
        "a server without a share"
    );
    assert_eq!(parse_request_on(Platform::Windows, b"show\n"), Ok(Request::Show));
    assert!(handoff_message(Platform::Windows, &preview(&path)).is_ok());
}

#[test]
fn malformed_request_does_not_stop_the_daemon() {
    let mut serving = Serving::new();
    let bad = answer(read_request(b"../etc/passwd\n"));
    assert_eq!(bad.reply, b"err\n", "a rejected path is refused, not obeyed");
    assert!(matches!(acknowledged(&bad.reply), Handoff::Unavailable(_)));
    assert!(bad.log.is_some());
    assert_eq!(bad.accepted, Accepted::Rejected, "the bad request is dropped");
    assert_eq!(serving.accepted(bad.accepted), None);

    let hostname = FilePath::new("/etc/hostname");
    let message = handoff_message(Platform::Unix, &preview(&hostname)).expect("a message");
    let good = answer(read_request(&message));
    assert!(matches!(acknowledged(&good.reply), Handoff::Delivered));
    assert_eq!(good.accepted, Accepted::Request(preview(&hostname)));
    assert_eq!(serving.accepted(good.accepted), Some(Request::Preview(hostname)));
}

#[test]
fn a_socket_that_keeps_failing_is_given_up() {
    let mut serving = Serving::new();
    let mut rounds = 0;
    while !serving.failed() {
        rounds += 1;
        assert!(rounds <= MAX_ACCEPT_ERRORS, "it must end");
    }
    assert!(rounds > 0, "one failure is not the end");
    let mut patient = Serving::new();
    for _ in 0..MAX_ACCEPT_ERRORS * 3 {
        assert!(!patient.failed());
        patient.accepted(Accepted::Probe);
    }
}

const ALICE: &str = "S-1-5-21-1111111111-2222222222-3333333333-1001";
const BOB: &str = "S-1-5-21-1111111111-2222222222-3333333333-1002";

#[test]
fn pipe_name_separates_users_and_sessions() {
    let a = pipe_name(ALICE, Some("Console"));
    assert_eq!(a, pipe_name(ALICE, Some("Console")), "must be stable");
    assert_ne!(a, pipe_name(BOB, Some("Console")), "two users, two pipes");
    assert_ne!(a, pipe_name(ALICE, Some("RDP-Tcp#0")), "two logins too");
    assert_ne!(a, pipe_name(ALICE, None));
    assert_ne!(pipe_name(ALICE, None), pipe_name(BOB, None));
}

#[test]
fn pipe_name_is_a_legal_pipe_name() {
    let prefix = r"\\.\pipe\";
    for name in [
        pipe_name(ALICE, Some("Console")),
        pipe_name(&"x".repeat(4000), Some(&"y".repeat(4000))),
        pipe_name("", None),
    ] {
        let rest = name
            .strip_prefix(prefix)
            .unwrap_or_else(|| panic!("{name} must start with {prefix}"));
        assert!(!rest.contains('\\'), "a pipe name has one prefix: {name}");
        assert!(!rest.is_empty(), "{name} names nothing");
        assert!(name.len() <= 256, "{} characters is too long", name.len());
    }
}

#[test]
fn pipe_errors_are_told_apart() {
    assert_eq!(code_of(0x8007_0005), ERROR_ACCESS_DENIED);
    assert!(is_taken(ERROR_ACCESS_DENIED));
    assert!(is_absent(ERROR_FILE_NOT_FOUND));
    assert!(is_serving(ERROR_PIPE_BUSY));
    assert!(!is_absent(ERROR_PIPE_BUSY));
    let mut nap = FIRST_NAP;
    for _ in 0..20 {
        nap = next_nap(nap);
    }
    assert_eq!(nap, MAX_NAP);
}

#[test]
fn a_pipe_is_opened_with_one_wait_at_most() {
    assert_eq!(after_open(false, Ok(())), Opening::Talk);
    for absent in [ERROR_FILE_NOT_FOUND, ERROR_PATH_NOT_FOUND] {
        assert_eq!(
            after_open(false, Err(absent)),
            Opening::Nobody(Handoff::Unavailable("no daemon is listening".to_owned()))
        );
    }
    assert_eq!(after_open(false, Err(ERROR_PIPE_BUSY)), Opening::Wait(CONNECT_WAIT_MS));
    assert_eq!(CONNECT_WAIT_MS, 250);
    assert_eq!(after_open(false, Err(ERROR_ACCESS_DENIED)), Opening::Failed(ERROR_ACCESS_DENIED));
    assert_eq!(after_wait(true), Opening::Again);
    assert_eq!(
        after_wait(false),
        Opening::Nobody(Handoff::Unavailable("the daemon is busy".to_owned()))
    );
    assert_eq!(after_open(true, Ok(())), Opening::Talk);
    assert_eq!(after_open(true, Err(ERROR_PIPE_BUSY)), Opening::Failed(ERROR_PIPE_BUSY));
    assert!(is_connected(Ok(())));
    assert!(is_connected(Err(ERROR_PIPE_CONNECTED)), "the client was faster");
    assert!(!is_connected(Err(ERROR_NO_DATA)));
}

#[test]
fn a_conversation_naps_ends_and_times_out() {
    let mut talk = Conversation::new(5);
    assert_eq!(talk.deadline, 5 + IO_TIMEOUT);
    assert_eq!(talk.read(10, Ok(0)), Turn::Nap(FIRST_NAP));
    assert_eq!(talk.read(20, Err(ERROR_NO_DATA)), Turn::Nap(FIRST_NAP * 2));
    assert_eq!(talk.write(30, Ok(0)), Turn::Nap(FIRST_NAP * 4));
    assert_eq!(talk.read(40, Ok(7)), Turn::Moved(7));
    assert_eq!(talk.nap, FIRST_NAP, "something came: naps are short again");
    assert_eq!(talk.read(50, Err(ERROR_BROKEN_PIPE)), Turn::End);
    assert_eq!(talk.read(50, Err(ERROR_PIPE_NOT_CONNECTED)), Turn::End);
    assert_eq!(talk.read(50, Err(ERROR_ACCESS_DENIED)), Turn::Failed(ERROR_ACCESS_DENIED));
    assert_eq!(talk.write(50, Ok(3)), Turn::Moved(3));
    assert_eq!(talk.write(50, Err(ERROR_NO_DATA)), Turn::Failed(ERROR_NO_DATA));
    assert_eq!(talk.read(5 + IO_TIMEOUT, Ok(0)), Turn::TimedOut);
    assert_eq!(talk.write(5 + IO_TIMEOUT, Ok(0)), Turn::TimedOut);
    assert_eq!(talk.read(5 + IO_TIMEOUT, Ok(1)), Turn::Moved(1), "what is there is read");
    for _ in 0..20 {
        talk.read(0, Ok(0));
    }
    assert_eq!(talk.read(0, Ok(0)), Turn::Nap(MAX_NAP));
}
