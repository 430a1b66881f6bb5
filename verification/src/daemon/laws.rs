//! What the messages and the names promise.
use vstd::prelude::*;
use vstd::utf8::valid_utf8_concat;
use vstd::utf8;

use crate::config::Platform;
use crate::daemon::name;
use crate::daemon::unix;
use crate::daemon::windows;
use crate::daemon::{self, ProtocolError, RequestView, MAX_MESSAGE, NEWLINE, RETURN};
use crate::path::{self, PathView};
use crate::text;

verus! {

proof fn lemma_newline_is_text()
    ensures
        utf8::valid_utf8(seq![NEWLINE]),
{
    let b = seq![NEWLINE];
    assert(vstd::utf8::leading_bits_width_1(0x0a) == 0x0a) by (bit_vector);
    assert(vstd::utf8::pop_first_scalar(b) =~= Seq::<u8>::empty());
    reveal_with_fuel(utf8::valid_utf8, 2);
}

proof fn lemma_show_is_text()
    ensures
        utf8::valid_utf8(daemon::show_word().push(NEWLINE)),
{
    let b = daemon::show_word().push(NEWLINE);
    vstd::utf8::partial_valid_utf8_extend_ascii_block(b, 0, 5);
    assert(b.subrange(0, 0) =~= Seq::<u8>::empty());
    assert(b.subrange(0, 5) =~= b);
}

/// What a message ends in, and what it is without.
proof fn lemma_line_of_message(b: Seq<u8>)
    requires
        b.len() > 0,
        daemon::carried(b),
    ensures
        daemon::line_of(b.push(NEWLINE)) == b,
{
    assert(b.push(NEWLINE).drop_last() =~= b);
    assert(b.contains(b[b.len() - 1]));
    assert(daemon::line_of(b) == b);
}

/// A message holds one line end, at its end.
proof fn lemma_extent(b: Seq<u8>, i: int)
    requires
        0 <= i <= b.len(),
        b.len() + 1 <= MAX_MESSAGE,
        !b.contains(NEWLINE),
    ensures
        daemon::line_extent(b.push(NEWLINE), i) == b.len() + 1,
    decreases b.len() - i,
{
    let m = b.push(NEWLINE);
    if i < b.len() {
        assert(m[i] == b[i]);
        assert(b.contains(b[i]));
        lemma_extent(b, i + 1);
    }
}

/// An absolute path begins with a separator, or with a letter and a colon.
proof fn lemma_absolute_begins(p: PathView)
    requires
        path::absolute(p),
    ensures
        p.bytes.len() > 0,
        p.bytes[0] == path::SLASH || p.bytes[0] == path::BACKSLASH || path::drive_at(p.bytes, 0),
{
}

/// What begins like an absolute path begins with a character that is no white space.
proof fn lemma_path_says_something(b: Seq<u8>)
    requires
        utf8::valid_utf8(b),
        b.len() > 0,
        b[0] == path::SLASH || b[0] == path::BACKSLASH || path::is_letter(b[0]),
    ensures
        !daemon::says_nothing(b),
{
    let first = b[0];
    assert(first < 0x80);
    assert(vstd::utf8::leading_bits_width_1(first) == first) by (bit_vector)
        requires
            first < 0x80,
    ;
    assert(utf8::decode_utf8(b)[0] == first as char) by {
        assert(utf8::decode_utf8(b)[0] == utf8::decode_first_scalar(b) as char);
    }
    utf8::char_u32_cast(first as char, first as u32);
    assert(!text::white_space(utf8::decode_utf8(b)[0]));
}

/// What is sent is what arrives: whatever request can be sent is read back as it
/// was, and nothing that follows it changes that. The two ends are on one platform.
pub proof fn law_a_request_round_trips(platform: Platform, request: RequestView, rest: Seq<u8>)
    requires
        request is Preview ==> request->Preview_0.platform == platform,
    ensures
        match daemon::message_of(request) {
            Ok(message) => {
                let back = Ok::<RequestView, ProtocolError>(request);
                &&& daemon::request_on(platform, message) == back
                &&& daemon::first_request_on(platform, message) == back
                &&& daemon::first_request_on(platform, message + rest) == back
                &&& message.len() <= MAX_MESSAGE
                &&& message.last() == NEWLINE
            },
            Err(_) => true,
        },
{
    if daemon::message_of(request) is Ok {
        let message = daemon::message_of(request)->Ok_0;
        let b = match request {
            RequestView::Show => daemon::show_word(),
            RequestView::Preview(p) => p.bytes,
        };
        if request is Show {
            assert(daemon::carried(b)) by {
                assert forall|i: int| 0 <= i < b.len() implies b[i] != NEWLINE && b[i] != RETURN
                    && b[i] != 0u8 by {}
            }
            lemma_show_is_text();
            lemma_show_says_something();
        } else {
            lemma_newline_is_text();
            valid_utf8_concat(b, seq![NEWLINE]);
            assert(b + seq![NEWLINE] =~= b.push(NEWLINE));
            lemma_absolute_begins(request->Preview_0);
            lemma_path_says_something(b.push(NEWLINE));
            assert(b != daemon::show_word()) by {
                assert(daemon::show_word()[0] == 0x73 && daemon::show_word()[1] == 0x68);
            }
        }
        lemma_line_of_message(b);
        lemma_extent(b, 0);
        assert(message.subrange(0, message.len() as int) =~= message);
        lemma_extent_of_more(message, rest, 0);
        assert((message + rest).subrange(0, message.len() as int) =~= message);
    }
}

proof fn lemma_show_says_something()
    ensures
        !daemon::says_nothing(daemon::show_word().push(NEWLINE)),
{
    let b = daemon::show_word().push(NEWLINE);
    lemma_show_is_text();
    let first = b[0];
    assert(vstd::utf8::leading_bits_width_1(first) == first) by (bit_vector)
        requires
            first < 0x80,
    ;
    assert(utf8::decode_utf8(b)[0] == first as char) by {
        assert(utf8::decode_utf8(b)[0] == utf8::decode_first_scalar(b) as char);
    }
    utf8::char_u32_cast(first as char, first as u32);
    assert(!text::white_space(utf8::decode_utf8(b)[0]));
}

proof fn lemma_extent_of_more(message: Seq<u8>, rest: Seq<u8>, i: int)
    requires
        0 <= i < message.len() <= MAX_MESSAGE,
        daemon::line_extent(message, i) == message.len(),
        message.last() == NEWLINE,
    ensures
        daemon::line_extent(message + rest, i) == message.len(),
    decreases message.len() - i,
{
    assert((message + rest)[i] == message[i]);
    if message[i] != NEWLINE {
        lemma_extent_of_more(message, rest, i + 1);
    }
}

/// Nothing but an absolute path is ever previewed, whatever arrives, and the word
/// for the window is no path.
pub proof fn law_only_absolute_paths_arrive(platform: Platform, b: Seq<u8>)
    ensures
        match daemon::request_on(platform, b) {
            Ok(RequestView::Preview(p)) => path::absolute(p) && !p.bytes.contains(0u8)
                && p.bytes.len() <= MAX_MESSAGE,
            _ => true,
        },
        !path::absolute((PathView { platform, bytes: daemon::show_word() })),
{
    lemma_line_shorter(b);
}

proof fn lemma_line_shorter(b: Seq<u8>)
    ensures
        daemon::line_of(b).len() <= b.len(),
    decreases b.len(),
{
    if b.len() > 0 && (b.last() == NEWLINE || b.last() == RETURN) {
        lemma_line_shorter(b.drop_last());
    }
}

/// However long a stream is, no more than a request may hold is looked at: a
/// stream with no line end in that many bytes is refused.
pub proof fn law_a_flood_is_refused(platform: Platform, stream: Seq<u8>)
    requires
        stream.len() >= MAX_MESSAGE,
        forall|i: int| 0 <= i < MAX_MESSAGE ==> #[trigger] stream[i] != NEWLINE,
    ensures
        daemon::first_request_on(platform, stream) == Err::<RequestView, ProtocolError>(ProtocolError::TooLong),
{
    lemma_no_line(stream, 0);
}

proof fn lemma_no_line(stream: Seq<u8>, i: int)
    requires
        0 <= i <= MAX_MESSAGE <= stream.len(),
        forall|i: int| 0 <= i < MAX_MESSAGE ==> #[trigger] stream[i] != NEWLINE,
    ensures
        daemon::line_extent(stream, i) == MAX_MESSAGE,
    decreases MAX_MESSAGE - i,
{
    if i < MAX_MESSAGE {
        lemma_no_line(stream, i + 1);
    }
}

/// Whether `s` may stand in the name of a file or a pipe.
pub open spec fn plain(s: Seq<char>) -> bool {
    forall|i: int|
        0 <= i < s.len() ==> ('a' <= #[trigger] s[i] <= 'z' || '0' <= s[i] <= '9' || s[i] == '-')
}

proof fn lemma_undashed(s: Seq<char>)
    requires
        plain(s),
    ensures
        plain(name::undashed(s)),
        name::undashed(s).len() <= s.len(),
    decreases s.len(),
{
    if s.len() > 0 && s.last() == '-' {
        let r = s.drop_last();
        assert forall|i: int| 0 <= i < r.len() implies ('a' <= #[trigger] r[i] <= 'z' || '0' <= r[i]
            <= '9' || r[i] == '-') by {
            assert(r[i] == s[i]);
        }
        lemma_undashed(r);
    }
}

/// A number takes no more digits than it is asked for, where it has no more.
proof fn lemma_hex_text(n: nat, digits: nat)
    requires
        n < vstd::arithmetic::power::pow(16, digits),
    ensures
        text::hex_text(n, digits).len() == digits,
        plain(text::hex_text(n, digits)),
    decreases digits,
{
    reveal(vstd::arithmetic::power::pow);
    if digits > 0 {
        let less = (digits - 1) as nat;
        assert(n / 16 < vstd::arithmetic::power::pow(16, less));
        lemma_hex_text(n / 16, less);
        let before = text::hex_text(n / 16, less);
        let last = text::hex_char((n % 16) as int);
        assert('a' <= last <= 'z' || '0' <= last <= '9');
        assert forall|i: int| 0 <= i < before.push(last).len() implies ('a'
            <= #[trigger] before.push(last)[i] <= 'z' || '0' <= before.push(last)[i] <= '9'
            || before.push(last)[i] == '-') by {
            if i < before.len() {
                assert(before.push(last)[i] == before[i]);
            }
        }
    }
}

/// A tag is short and plain, whatever it stands for: letters in lower case,
/// digits and dashes.
pub proof fn law_a_tag_is_short_and_plain(s: Seq<char>)
    ensures
        10 <= name::tagged(s).len() <= 25,
        plain(name::tagged(s)),
{
    let kept = name::kept_chars(s);
    assert forall|i: int| 0 <= i < kept.len() implies ('a' <= #[trigger] kept[i] <= 'z' || '0'
        <= kept[i] <= '9' || kept[i] == '-') by {
        assert(kept[i] == name::name_char(s[i]));
    }
    lemma_undashed(kept);
    let hash = (name::hashed(utf8::encode_utf8(s)) % 0x1_0000_0000) as nat;
    assert(vstd::arithmetic::power::pow(16, 8) == 0x1_0000_0000) by {
        reveal_with_fuel(vstd::arithmetic::power::pow, 9);
    }
    lemma_hex_text(hash, 8);
    reveal_strlit("-");
    let clean = name::sanitized(s);
    assert(plain(clean));
    let t = name::tagged(s);
    assert forall|i: int| 0 <= i < t.len() implies ('a' <= #[trigger] t[i] <= 'z' || '0' <= t[i]
        <= '9' || t[i] == '-') by {
        if i < clean.len() {
            assert(t[i] == clean[i]);
        } else if i == clean.len() {
            assert(t[i] == "-"@[0]);
        } else {
            assert(t[i] == text::hex_text(hash, 8)[i - clean.len() - 1]);
        }
    }
}

proof fn lemma_session_tag(session: Option<Seq<char>>)
    ensures
        9 <= name::session_tag(session).len() <= 25,
        plain(name::session_tag(session)),
{
    reveal_strlit("nosession");
    if session is Some && session->0.len() > 0 {
        law_a_tag_is_short_and_plain(session->0);
    }
}

proof fn lemma_decimal(n: nat)
    requires
        n < 0x1_0000_0000,
    ensures
        1 <= text::decimal(n).len() <= 10,
        forall|i: int| 0 <= i < text::decimal(n).len() ==> '0' <= #[trigger] text::decimal(n)[i] <= '9',
{
    lemma_decimal_len(n, 10);
}

proof fn lemma_decimal_len(n: nat, k: nat)
    requires
        k >= 1,
        k <= 10,
        n < pow10(k),
    ensures
        1 <= text::decimal(n).len() <= k,
        forall|i: int| 0 <= i < text::decimal(n).len() ==> '0' <= #[trigger] text::decimal(n)[i] <= '9',
    decreases n,
{
    let d = text::digit_char(n % 10);
    assert('0' <= d <= '9');
    if n >= 10 {
        lemma_decimal_len(n / 10, (k - 1) as nat);
        let before = text::decimal(n / 10);
        assert forall|i: int| 0 <= i < text::decimal(n).len() implies '0' <= #[trigger] text::decimal(n)[i]
            <= '9' by {
            if i < before.len() {
                assert(text::decimal(n)[i] == before[i]);
            }
        }
    } else {
        assert(text::digit_char(n) == d);
    }
}

spec fn pow10(k: nat) -> nat {
    if k == 0 {
        1
    } else if k == 1 {
        10
    } else if k == 2 {
        100
    } else if k == 3 {
        1_000
    } else if k == 4 {
        10_000
    } else if k == 5 {
        100_000
    } else if k == 6 {
        1_000_000
    } else if k == 7 {
        10_000_000
    } else if k == 8 {
        100_000_000
    } else if k == 9 {
        1_000_000_000
    } else {
        10_000_000_000
    }
}

/// The name of a socket is short enough for a socket's address, however long the
/// name of the session is, and holds nothing but letters in lower case, digits and
/// dashes up to the dot of its ending.
pub proof fn law_a_socket_name_is_short(uid: u32, session: Option<Seq<char>>)
    ensures
        unix::socket_file(uid, session).len() < 64,
        unix::socket_file(uid, session).len() > 5,
        unix::socket_file(uid, session).skip(unix::socket_file(uid, session).len() - 5)
            == ".sock"@,
        plain(
            unix::socket_file(uid, session).subrange(
                0,
                unix::socket_file(uid, session).len() - 5,
            ),
        ),
{
    lemma_session_tag(session);
    lemma_decimal(uid as nat);
    reveal_strlit("sekio-gui-");
    reveal_strlit("-");
    reveal_strlit(".sock");
    let name = unix::socket_file(uid, session);
    let n = name.len() - 5;
    let d = text::decimal(uid as nat);
    let t = name::session_tag(session);
    assert(name.skip(n) =~= ".sock"@);
    let stem = name.subrange(0, n);
    assert forall|i: int| 0 <= i < stem.len() implies ('a' <= #[trigger] stem[i] <= 'z' || '0'
        <= stem[i] <= '9' || stem[i] == '-') by {
        if i < 10 {
            assert(stem[i] == "sekio-gui-"@[i]);
        } else if i < 10 + d.len() {
            assert(stem[i] == d[i - 10]);
        } else if i == 10 + d.len() {
            assert(stem[i] == "-"@[0]);
        } else {
            assert(stem[i] == t[i - 11 - d.len()]);
        }
    }
}

/// Two numbers are written differently.
proof fn lemma_decimal_injective(a: nat, b: nat)
    requires
        text::decimal(a) == text::decimal(b),
    ensures
        a == b,
    decreases a,
{
    assert(text::decimal(a).last() == text::digit_char(a % 10));
    assert(text::decimal(b).last() == text::digit_char(b % 10));
    assert(a % 10 == b % 10);
    if a >= 10 && b >= 10 {
        assert(text::decimal(a).drop_last() =~= text::decimal(a / 10));
        assert(text::decimal(b).drop_last() =~= text::decimal(b / 10));
        lemma_decimal_injective(a / 10, b / 10);
    } else if a >= 10 {
        lemma_decimal_nonempty(a / 10);
        assert(text::decimal(a).len() == text::decimal(a / 10).len() + 1);
    } else if b >= 10 {
        lemma_decimal_nonempty(b / 10);
        assert(text::decimal(b).len() == text::decimal(b / 10).len() + 1);
    }
}

proof fn lemma_decimal_nonempty(n: nat)
    ensures
        text::decimal(n).len() > 0,
{
}

/// Two users never share a socket, whatever their sessions are called.
pub proof fn law_two_users_have_two_sockets(
    a: u32,
    b: u32,
    s: Option<Seq<char>>,
    t: Option<Seq<char>>,
)
    requires
        a != b,
    ensures
        unix::socket_file(a, s) != unix::socket_file(b, t),
{
    if unix::socket_file(a, s) == unix::socket_file(b, t) {
        reveal_strlit("sekio-gui-");
        reveal_strlit("-");
        lemma_decimal(a as nat);
        lemma_decimal(b as nat);
        let x = text::decimal(a as nat);
        let y = text::decimal(b as nat);
        let n = unix::socket_file(a, s);
        let m = unix::socket_file(b, t);
        let k = 10int;
        assert forall|i: int| 0 <= i < x.len() implies n[k + i] == #[trigger] x[i] by {}
        assert forall|i: int| 0 <= i < y.len() implies m[k + i] == #[trigger] y[i] by {}
        assert(n[k + x.len()] == '-') by {
            assert("-"@[0] == '-');
        }
        assert(m[k + y.len()] == '-') by {
            assert("-"@[0] == '-');
        }
        if x.len() < y.len() {
            assert(m[k + x.len()] == y[x.len() as int]);
        } else if y.len() < x.len() {
            assert(n[k + y.len()] == x[y.len() as int]);
        } else {
            assert forall|i: int| 0 <= i < x.len() implies x[i] == y[i] by {
                assert(n[k + i] == x[i]);
                assert(m[k + i] == y[i]);
            }
            assert(x =~= y);
            lemma_decimal_injective(a as nat, b as nat);
        }
    }
}

/// The name of a pipe is a legal one: it begins as the name of a pipe does, holds
/// no other backslash, names something, and is short enough.
pub proof fn law_a_pipe_name_is_legal(user: Seq<char>, session: Option<Seq<char>>)
    ensures
        windows::pipe_of(user, session).len() <= 256,
        windows::pipe_of(user, session).len() > windows::pipe_prefix().len(),
        windows::pipe_of(user, session).subrange(0, windows::pipe_prefix().len() as int) == windows::pipe_prefix(),
        plain(windows::pipe_of(user, session).skip(windows::pipe_prefix().len() as int)),
{
    law_a_tag_is_short_and_plain(user);
    lemma_session_tag(session);
    reveal_strlit("\\\\.\\pipe\\");
    reveal_strlit("sekio-gui-");
    reveal_strlit("-");
    let name = windows::pipe_of(user, session);
    let p = windows::pipe_prefix().len() as int;
    assert(name.subrange(0, p) =~= windows::pipe_prefix());
    let rest = name.skip(p);
    let u = name::tagged(user);
    let t = name::session_tag(session);
    assert forall|i: int| 0 <= i < rest.len() implies ('a' <= #[trigger] rest[i] <= 'z' || '0'
        <= rest[i] <= '9' || rest[i] == '-') by {
        if i < 10 {
            assert(rest[i] == "sekio-gui-"@[i]);
        } else if i < 10 + u.len() {
            assert(rest[i] == u[i - 10]);
        } else if i == 10 + u.len() {
            assert(rest[i] == "-"@[0]);
        } else {
            assert(rest[i] == t[i - 11 - u.len()]);
        }
    }
}

/// Which paths can be sent: texts that are absolute paths, hold no line end and no zero
/// byte, and leave room for the line end in what a request may hold. Of a path that
/// cannot be sent the first thing in the way is told: that it is no text, that it is
/// empty, relative, holds what a line cannot, or is too long.
pub proof fn law_which_paths_can_be_sent(p: PathView)
    ensures
        ({
            let b = p.bytes;
            let clean = forall|i: int|
                0 <= i < b.len() ==> #[trigger] b[i] != 0x0a && b[i] != 0x0d && b[i] != 0;
            let m = daemon::message_of(RequestView::Preview(p));
            &&& m is Ok <==> utf8::valid_utf8(b) && b.len() > 0 && path::absolute(p) && clean
                && b.len() < 4096
            &&& m is Ok ==> m->Ok_0 == b + seq![0x0au8]
            &&& !utf8::valid_utf8(b) ==> m == Err::<Seq<u8>, ProtocolError>(ProtocolError::NotUtf8)
            &&& utf8::valid_utf8(b) && b.len() == 0 ==> m == Err::<Seq<u8>, ProtocolError>(
                ProtocolError::Empty,
            )
            &&& utf8::valid_utf8(b) && b.len() > 0 && !path::absolute(p) ==> m == Err::<
                Seq<u8>,
                ProtocolError,
            >(ProtocolError::NotAbsolute)
            &&& utf8::valid_utf8(b) && path::absolute(p) && !clean ==> m == Err::<
                Seq<u8>,
                ProtocolError,
            >(ProtocolError::Unrepresentable)
            &&& utf8::valid_utf8(b) && path::absolute(p) && clean && b.len() >= 4096 ==> m == Err::<
                Seq<u8>,
                ProtocolError,
            >(ProtocolError::TooLong)
        }),
{
    let b = p.bytes;
    let clean = forall|i: int|
        0 <= i < b.len() ==> #[trigger] b[i] != 0x0a && b[i] != 0x0d && b[i] != 0;
    if clean {
        assert(daemon::carried(b));
    } else {
        let i = choose|i: int| 0 <= i < b.len() && !(#[trigger] b[i] != 0x0a && b[i] != 0x0d && b[i] != 0);
        assert(b.contains(b[i]));
    }
    assert(b.push(NEWLINE) =~= b + seq![0x0au8]);
    if path::absolute(p) {
        lemma_absolute_begins(p);
    }
}

/// The window is asked for by a word of its own, and what is written back is one of two
/// other words, each on a line.
pub proof fn law_the_words_on_the_line()
    ensures
        daemon::message_of(RequestView::Show) == Ok::<Seq<u8>, ProtocolError>(
            utf8::encode_utf8("show\n"@),
        ),
        daemon::ok_reply() == utf8::encode_utf8("ok\n"@),
        daemon::err_reply() == utf8::encode_utf8("err\n"@),
{
    reveal_strlit("show\n");
    reveal_strlit("ok\n");
    reveal_strlit("err\n");
    assert(utf8::is_ascii_chars("show\n"@));
    assert(utf8::is_ascii_chars("ok\n"@));
    assert(utf8::is_ascii_chars("err\n"@));
    utf8::is_ascii_chars_encode_utf8("show\n"@);
    utf8::is_ascii_chars_encode_utf8("ok\n"@);
    utf8::is_ascii_chars_encode_utf8("err\n"@);
    assert(daemon::show_word().push(NEWLINE) =~= utf8::encode_utf8("show\n"@));
    assert(daemon::ok_reply() =~= utf8::encode_utf8("ok\n"@));
    assert(daemon::err_reply() =~= utf8::encode_utf8("err\n"@));
}

/// What a message says is what stands before the line ends it ends in, however many
/// there are.
pub proof fn law_line_ends_are_taken_off(line: Seq<u8>, ends: Seq<u8>)
    requires
        line.len() > 0 ==> line.last() != 0x0a && line.last() != 0x0d,
        forall|i: int| 0 <= i < ends.len() ==> #[trigger] ends[i] == 0x0a || ends[i] == 0x0d,
    ensures
        daemon::line_of(line + ends) == line,
    decreases ends.len(),
{
    if ends.len() == 0 {
        assert(line + ends =~= line);
    } else {
        let less = ends.drop_last();
        assert forall|i: int| 0 <= i < less.len() implies #[trigger] less[i] == 0x0a || less[i]
            == 0x0d by {
            assert(less[i] == ends[i]);
        }
        assert(ends[ends.len() - 1] == ends.last());
        assert((line + ends).drop_last() =~= line + less);
        law_line_ends_are_taken_off(line, less);
    }
}

/// A message with an absolute path in it asks for that path, whatever line ends follow.
pub proof fn law_a_path_arrives(platform: Platform, line: Seq<u8>, ends: Seq<u8>)
    requires
        utf8::valid_utf8(line + ends),
        (line + ends).len() <= 4096,
        path::absolute((PathView { platform, bytes: line })),
        !line.contains(0u8),
        line.last() != 0x0a && line.last() != 0x0d,
        forall|i: int| 0 <= i < ends.len() ==> #[trigger] ends[i] == 0x0a || ends[i] == 0x0d,
    ensures
        daemon::request_on(platform, line + ends) == Ok::<RequestView, ProtocolError>(
            RequestView::Preview(PathView { platform, bytes: line }),
        ),
{
    lemma_absolute_begins(PathView { platform, bytes: line });
    law_line_ends_are_taken_off(line, ends);
    assert((line + ends)[0] == line[0]);
    lemma_path_says_something(line + ends);
    assert(line != daemon::show_word()) by {
        assert(daemon::show_word()[0] == 0x73 && daemon::show_word()[1] == 0x68);
    }
}

/// Why a message is refused: it is too long; or it is no text; or there is nothing in it
/// but white space; or it holds a zero byte; or what it says is neither the word for the
/// window nor an absolute path. The first of these is told.
pub proof fn law_why_a_message_is_refused(platform: Platform, b: Seq<u8>)
    ensures
        ({
            let r = daemon::request_on(platform, b);
            let blank = forall|i: int|
                0 <= i < utf8::decode_utf8(b).len() ==> text::white_space(
                    #[trigger] utf8::decode_utf8(b)[i],
                );
            &&& b.len() > 4096 ==> r == Err::<RequestView, ProtocolError>(ProtocolError::TooLong)
            &&& b.len() <= 4096 && !utf8::valid_utf8(b) ==> r == Err::<RequestView, ProtocolError>(
                ProtocolError::NotUtf8,
            )
            &&& b.len() <= 4096 && utf8::valid_utf8(b) && blank ==> r == Err::<
                RequestView,
                ProtocolError,
            >(ProtocolError::Empty)
            &&& b.len() <= 4096 && utf8::valid_utf8(b) && !blank ==> match r {
                Ok(RequestView::Show) => daemon::line_of(b) == utf8::encode_utf8("show"@),
                Ok(RequestView::Preview(p)) => p.platform == platform && p.bytes
                    == daemon::line_of(b) && path::absolute(p),
                Err(e) => if daemon::line_of(b).contains(0u8) {
                    e == ProtocolError::Unrepresentable
                } else {
                    e == ProtocolError::NotAbsolute && !path::absolute(
                        (PathView { platform, bytes: daemon::line_of(b) }),
                    ) && daemon::line_of(b) != utf8::encode_utf8("show"@)
                },
            }
        }),
{
    reveal_strlit("show");
    assert(utf8::is_ascii_chars("show"@));
    utf8::is_ascii_chars_encode_utf8("show"@);
    assert(daemon::show_word() =~= utf8::encode_utf8("show"@));
    lemma_line_shorter(b);
}

proof fn lemma_extent_at(stream: Seq<u8>, i: int, k: int)
    requires
        0 <= i <= k < stream.len(),
        k < MAX_MESSAGE,
        stream[k] == NEWLINE,
        forall|j: int| 0 <= j < k ==> #[trigger] stream[j] != NEWLINE,
    ensures
        daemon::line_extent(stream, i) == k + 1,
    decreases k - i,
{
    if i < k {
        lemma_extent_at(stream, i + 1, k);
    }
}

proof fn lemma_extent_whole(stream: Seq<u8>, i: int)
    requires
        0 <= i <= stream.len(),
        stream.len() < MAX_MESSAGE,
        forall|j: int| 0 <= j < stream.len() ==> #[trigger] stream[j] != NEWLINE,
    ensures
        daemon::line_extent(stream, i) == stream.len(),
    decreases stream.len() - i,
{
    if i < stream.len() {
        lemma_extent_whole(stream, i + 1);
    }
}

/// Of a stream no more than the first line is read: where it has a line end among the
/// bytes that a request may hold, what stands up to there is the message.
pub proof fn law_the_first_line_is_the_message(platform: Platform, stream: Seq<u8>, k: int)
    requires
        0 <= k < stream.len(),
        k < 4096,
        stream[k] == 0x0a,
        forall|j: int| 0 <= j < k ==> #[trigger] stream[j] != 0x0a,
    ensures
        daemon::first_request_on(platform, stream) == daemon::request_on(
            platform,
            stream.take(k + 1),
        ),
{
    lemma_extent_at(stream, 0, k);
    assert(stream.subrange(0, k + 1) =~= stream.take(k + 1));
    assert(stream.take(k + 1).last() == stream[k]);
}

/// A stream that ends before its first line does is a message all the same.
pub proof fn law_a_line_need_not_end(platform: Platform, stream: Seq<u8>)
    requires
        stream.len() < 4096,
        forall|j: int| 0 <= j < stream.len() ==> #[trigger] stream[j] != 0x0a,
    ensures
        daemon::first_request_on(platform, stream) == daemon::request_on(platform, stream),
{
    lemma_extent_whole(stream, 0);
    assert(stream.subrange(0, stream.len() as int) =~= stream);
}

proof fn lemma_undashed_is(s: Seq<char>)
    ensures
        name::undashed(s).len() <= s.len(),
        name::undashed(s) == s.take(name::undashed(s).len() as int),
        name::undashed(s).len() > 0 ==> name::undashed(s).last() != '-',
        forall|i: int| name::undashed(s).len() <= i < s.len() ==> #[trigger] s[i] == '-',
    decreases s.len(),
{
    let r = name::undashed(s);
    if s.len() > 0 && s.last() == '-' {
        let t = s.drop_last();
        lemma_undashed_is(t);
        assert(t.take(r.len() as int) =~= s.take(r.len() as int));
        assert forall|i: int| r.len() <= i < s.len() implies #[trigger] s[i] == '-' by {
            if i < t.len() {
                assert(s[i] == t[i]);
            }
        }
    } else {
        assert(s.take(s.len() as int) =~= s);
    }
}

/// The part of a name that can be read: the first sixteen characters, letters in lower
/// case, digits as they are and a dash for any other; none of these at the end. Where
/// there is no letter and no digit among them it is an x.
pub proof fn law_a_name_keeps_letters_and_digits(s: Seq<char>)
    ensures
        ({
            let r = name::sanitized(s);
            let n = if s.len() < 16 {
                s.len() as int
            } else {
                16
            };
            let marks = forall|i: int|
                0 <= i < n ==> !('a' <= #[trigger] s[i] <= 'z' || 'A' <= s[i] <= 'Z' || '0' <= s[i]
                    <= '9');
            &&& marks ==> r == seq!['x']
            &&& !marks ==> {
                &&& 0 < r.len() <= n
                &&& r.last() != '-'
                &&& forall|i: int|
                    #![trigger r[i]]
                    0 <= i < r.len() ==> {
                        &&& 'a' <= s[i] <= 'z' || '0' <= s[i] <= '9' ==> r[i] == s[i]
                        &&& 'A' <= s[i] <= 'Z' ==> r[i] as int == s[i] as int + 32
                        &&& !('a' <= s[i] <= 'z' || 'A' <= s[i] <= 'Z' || '0' <= s[i] <= '9')
                            ==> r[i] == '-'
                    }
                &&& forall|i: int|
                    r.len() <= i < n ==> !('a' <= #[trigger] s[i] <= 'z' || 'A' <= s[i] <= 'Z'
                        || '0' <= s[i] <= '9')
            }
        }),
{
    let kept = name::kept_chars(s);
    let cut = name::undashed(kept);
    lemma_undashed_is(kept);
    let n = if s.len() < 16 {
        s.len() as int
    } else {
        16
    };
    assert(kept.len() == n);
    assert forall|i: int| 0 <= i < n implies ((kept[i] == '-') <==> !('a' <= #[trigger] s[i] <= 'z'
        || 'A' <= s[i] <= 'Z' || '0' <= s[i] <= '9')) by {
        assert(kept[i] == name::name_char(s[i]));
    }
    assert forall|i: int| 0 <= i < cut.len() implies #[trigger] cut[i] == name::name_char(s[i]) by {
        assert(cut[i] == kept[i]);
    }
    let marks = forall|i: int|
        0 <= i < n ==> !('a' <= #[trigger] s[i] <= 'z' || 'A' <= s[i] <= 'Z' || '0' <= s[i] <= '9');
    if marks {
        if cut.len() > 0 {
            let last = cut.len() - 1;
            assert(cut[last] == kept[last]);
            assert(s[last] == s[last]);
        }
    } else {
        let i = choose|i: int|
            0 <= i < n && ('a' <= #[trigger] s[i] <= 'z' || 'A' <= s[i] <= 'Z' || '0' <= s[i] <= '9');
        assert(kept[i] != '-');
        assert(i < cut.len());
        assert forall|i: int| cut.len() <= i < n implies !('a' <= #[trigger] s[i] <= 'z' || 'A'
            <= s[i] <= 'Z' || '0' <= s[i] <= '9') by {
            assert(kept[i] == '-');
        }
    }
}

/// The hash of nothing is where hashing begins, and each further byte is mixed into the
/// hash of those before it.
pub proof fn law_a_hash_goes_on(b: Seq<u8>, x: u8)
    ensures
        name::hashed(Seq::empty()) == 0xcbf2_9ce4_8422_2325u64,
        name::hashed(b.push(x)) == ((name::hashed(b) ^ (x as u64)) * 0x1000_0000_01b3)
            % 0x1_0000_0000_0000_0000,
{
    assert(b.push(x).drop_last() =~= b);
}

/// A tag is the part that can be read, a dash, and eight digits that read back as the
/// lower half of the hash of the whole.
pub proof fn law_a_tag_carries_its_hash(s: Seq<char>)
    ensures
        ({
            let t = name::tagged(s);
            let n = t.len() - 8;
            &&& n > 0
            &&& t.take(n) == name::sanitized(s) + seq!['-']
            &&& text::read_as(t.skip(n), 16) == name::hashed(utf8::encode_utf8(s)) as int
                % 0x1_0000_0000
        }),
{
    let t = name::tagged(s);
    let clean = name::sanitized(s);
    let hash = (name::hashed(utf8::encode_utf8(s)) % 0x1_0000_0000) as nat;
    assert(vstd::arithmetic::power::pow(16, 8) == 0x1_0000_0000) by {
        reveal_with_fuel(vstd::arithmetic::power::pow, 9);
    }
    lemma_hex_text(hash, 8);
    text::law_a_hexadecimal_reads_back(hash, 8);
    reveal_strlit("-");
    let n = t.len() - 8;
    assert(t.take(n) =~= clean + seq!['-']);
    assert(t.skip(n) =~= text::hex_text(hash, 8));
}

/// A session that is named has its own tag; one that is not, or has an empty name, has
/// the tag of no session.
pub proof fn law_a_session_has_its_tag(s: Seq<char>)
    ensures
        s.len() > 0 ==> name::session_tag(Some(s)) == name::tagged(s),
        name::session_tag(Some(Seq::empty())) == "nosession"@,
        name::session_tag(None) == "nosession"@,
{
}

/// The name of a socket says what it is, whose, and of which session.
pub proof fn law_a_socket_says_whose_it_is(uid: u32, session: Option<Seq<char>>)
    ensures
        ({
            let f = unix::socket_file(uid, session);
            let id = text::decimal(uid as nat);
            let tag = name::session_tag(session);
            &&& f.len() == 10 + id.len() + 1 + tag.len() + 5
            &&& f.take(10) == "sekio-gui-"@
            &&& f.subrange(10, 10 + id.len() as int) == id
            &&& f[10 + id.len() as int] == '-'
            &&& f.subrange(11 + id.len() as int, 11 + id.len() as int + tag.len()) == tag
            &&& f.skip(11 + id.len() as int + tag.len()) == ".sock"@
        }),
{
    reveal_strlit("sekio-gui-");
    reveal_strlit("-");
    reveal_strlit(".sock");
    let f = unix::socket_file(uid, session);
    let id = text::decimal(uid as nat);
    let tag = name::session_tag(session);
    assert(f.take(10) =~= "sekio-gui-"@);
    assert(f.subrange(10, 10 + id.len() as int) =~= id);
    assert(f.subrange(11 + id.len() as int, 11 + id.len() as int + tag.len()) =~= tag);
    assert(f.skip(11 + id.len() as int + tag.len()) =~= ".sock"@);
}

/// The name of a pipe says where pipes are, what it is, whose, and of which session.
pub proof fn law_a_pipe_says_whose_it_is(user: Seq<char>, session: Option<Seq<char>>)
    ensures
        ({
            let f = windows::pipe_of(user, session);
            let id = name::tagged(user);
            let tag = name::session_tag(session);
            &&& f.len() == 19 + id.len() + 1 + tag.len()
            &&& f.take(9) == seq!['\\', '\\', '.', '\\', 'p', 'i', 'p', 'e', '\\']
            &&& f.subrange(9, 19) == "sekio-gui-"@
            &&& f.subrange(19, 19 + id.len() as int) == id
            &&& f[19 + id.len() as int] == '-'
            &&& f.skip(20 + id.len() as int) == tag
        }),
{
    reveal_strlit("\\\\.\\pipe\\");
    reveal_strlit("sekio-gui-");
    reveal_strlit("-");
    let f = windows::pipe_of(user, session);
    let id = name::tagged(user);
    let tag = name::session_tag(session);
    assert(f.take(9) =~= seq!['\\', '\\', '.', '\\', 'p', 'i', 'p', 'e', '\\']);
    assert(f.subrange(9, 19) =~= "sekio-gui-"@);
    assert(f.subrange(19, 19 + id.len() as int) =~= id);
    assert(f.skip(20 + id.len() as int) =~= tag);
}

} // verus!
