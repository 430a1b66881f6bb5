//! What a search for the selected file promises.
use vstd::prelude::*;
use vstd::utf8;

use super::linux::{self, Ask, Buffer, BusTool, Target, Tool};
use crate::config::Platform;
use crate::path::{self, FilePath, PathView};
use crate::probe;
use crate::style;
use crate::text;

verus! {

// ---------------------------------------------------------------------------
// Asking the tools
// ---------------------------------------------------------------------------
/// Whether `a` stands in `args` with `b` right behind it.
pub open spec fn followed(args: Seq<Seq<char>>, a: Seq<char>, b: Seq<char>) -> bool {
    exists|i: int| 0 <= i && i + 1 < args.len() && #[trigger] args[i] == a && args[i + 1] == b
}

proof fn lemma_arguments()
    ensures
        "--primary"@ != "--clipboard"@,
        "--primary"@ != "--no-newline"@,
        "--primary"@ != "--type"@,
        "--primary"@ != "text/uri-list"@,
        "--primary"@ != "--output"@,
        "--clipboard"@ != "--output"@,
        "--type"@ != "--no-newline"@,
        "primary"@ != "clipboard"@,
        "text/uri-list"@ != "UTF8_STRING"@,
        "-selection"@ != "-o"@,
        "-t"@ != "-o"@,
        "-t"@ != "-selection"@,
        "-t"@ != "primary"@,
        "-t"@ != "clipboard"@,
        "-selection"@ != "primary"@,
        "-selection"@ != "clipboard"@,
{
    reveal_strlit("--primary");
    reveal_strlit("--clipboard");
    reveal_strlit("--no-newline");
    reveal_strlit("--type");
    reveal_strlit("text/uri-list");
    reveal_strlit("--output");
    reveal_strlit("primary");
    reveal_strlit("clipboard");
    reveal_strlit("UTF8_STRING");
    reveal_strlit("-selection");
    reveal_strlit("-o");
    reveal_strlit("-t");
    assert("--primary"@.len() == 9 && "--clipboard"@.len() == 11 && "--no-newline"@.len() == 12);
    assert("--type"@.len() == 6 && "text/uri-list"@.len() == 13 && "--output"@.len() == 8);
    assert("primary"@.len() == 7 && "clipboard"@.len() == 9 && "UTF8_STRING"@.len() == 11);
    assert("-selection"@.len() == 10 && "-o"@.len() == 2 && "-t"@.len() == 2);
    assert("-o"@[1] == 'o' && "-t"@[1] == 't');
}

/// The arguments name the buffer that was asked for, whatever the tool and the form:
/// the selection where that is meant, and the clipboard where that is meant.
pub proof fn law_the_arguments_name_the_buffer(target: Target)
    ensures
        linux::read_arguments(Tool::WlPaste, Buffer::Primary, target).contains("--primary"@),
        !linux::read_arguments(Tool::WlPaste, Buffer::Clipboard, target).contains("--primary"@),
        linux::read_arguments(Tool::Xsel, Buffer::Primary, target).contains("--primary"@),
        !linux::read_arguments(Tool::Xsel, Buffer::Primary, target).contains("--clipboard"@),
        linux::read_arguments(Tool::Xsel, Buffer::Clipboard, target).contains("--clipboard"@),
        !linux::read_arguments(Tool::Xsel, Buffer::Clipboard, target).contains("--primary"@),
        followed(
            linux::read_arguments(Tool::Xclip, Buffer::Primary, target),
            "-selection"@,
            "primary"@,
        ),
        !followed(
            linux::read_arguments(Tool::Xclip, Buffer::Primary, target),
            "-selection"@,
            "clipboard"@,
        ),
        followed(
            linux::read_arguments(Tool::Xclip, Buffer::Clipboard, target),
            "-selection"@,
            "clipboard"@,
        ),
        !followed(
            linux::read_arguments(Tool::Xclip, Buffer::Clipboard, target),
            "-selection"@,
            "primary"@,
        ),
{
    lemma_arguments();
    let a = linux::read_arguments(Tool::WlPaste, Buffer::Primary, target);
    assert(a[1] == "--primary"@);
    let b = linux::read_arguments(Tool::Xsel, Buffer::Primary, target);
    assert(b[1] == "--primary"@);
    let c = linux::read_arguments(Tool::Xsel, Buffer::Clipboard, target);
    assert(c[1] == "--clipboard"@);
    let d = linux::read_arguments(Tool::Xclip, Buffer::Primary, target);
    assert(d[1] == "-selection"@ && d[2] == "primary"@);
    let e = linux::read_arguments(Tool::Xclip, Buffer::Clipboard, target);
    assert(e[1] == "-selection"@ && e[2] == "clipboard"@);
    assert(d.len() == 5 && e.len() == 5);
    assert forall|i: int| 0 <= i && i + 1 < d.len() && #[trigger] d[i] == "-selection"@ implies d[i
        + 1] != "clipboard"@ by {
        assert(i == 0 || i == 1 || i == 2 || i == 3);
    }
    assert forall|i: int| 0 <= i && i + 1 < e.len() && #[trigger] e[i] == "-selection"@ implies e[i
        + 1] != "primary"@ by {
        assert(i == 0 || i == 1 || i == 2 || i == 3);
    }
}

/// The arguments name the form that was asked for, where the tool knows forms: a list
/// of URIs is asked for by its type, and plain text is not.
pub proof fn law_the_arguments_name_the_form(buffer: Buffer)
    ensures
        followed(
            linux::read_arguments(Tool::WlPaste, buffer, Target::UriList),
            "--type"@,
            "text/uri-list"@,
        ),
        !linux::read_arguments(Tool::WlPaste, buffer, Target::Text).contains("--type"@),
        linux::read_arguments(Tool::WlPaste, buffer, Target::Text).contains("--no-newline"@),
        linux::read_arguments(Tool::WlPaste, buffer, Target::UriList).contains("--no-newline"@),
        followed(
            linux::read_arguments(Tool::Xclip, buffer, Target::UriList),
            "-t"@,
            "text/uri-list"@,
        ),
        followed(
            linux::read_arguments(Tool::Xclip, buffer, Target::Text),
            "-t"@,
            "UTF8_STRING"@,
        ),
        linux::read_arguments(Tool::Xclip, buffer, Target::Text).contains("-o"@),
        linux::read_arguments(Tool::Xclip, buffer, Target::UriList).contains("-o"@),
        linux::read_arguments(Tool::Xsel, buffer, Target::Text).contains("--output"@),
        linux::read_arguments(Tool::Xsel, buffer, Target::UriList) == linux::read_arguments(
            Tool::Xsel,
            buffer,
            Target::Text,
        ),
{
    lemma_arguments();
    let a = linux::read_arguments(Tool::WlPaste, buffer, Target::UriList);
    let n = a.len();
    assert(a[0] == "--no-newline"@);
    assert(a[n - 2] == "--type"@ && a[n - 1] == "text/uri-list"@);
    let b = linux::read_arguments(Tool::WlPaste, buffer, Target::Text);
    assert(b[0] == "--no-newline"@);
    let c = linux::read_arguments(Tool::Xclip, buffer, Target::UriList);
    assert(c[0] == "-o"@ && c[3] == "-t"@ && c[4] == "text/uri-list"@);
    let d = linux::read_arguments(Tool::Xclip, buffer, Target::Text);
    assert(d[0] == "-o"@ && d[3] == "-t"@ && d[4] == "UTF8_STRING"@);
    let e = linux::read_arguments(Tool::Xsel, buffer, Target::Text);
    assert(e[0] == "--output"@);
}

/// The bus is asked about the very name that was given: it stands last, in the form the
/// tool takes, and the question is whether it has an owner.
pub proof fn law_the_bus_is_asked_about_the_name(name: Seq<char>)
    ensures
        linux::owner_arguments(BusTool::Gdbus, name).last() == name,
        linux::owner_arguments(BusTool::DbusSend, name).last() == "string:"@ + name,
        linux::owner_arguments(BusTool::Gdbus, name).contains("org.freedesktop.DBus.NameHasOwner"@),
        linux::owner_arguments(BusTool::DbusSend, name).contains(
            "org.freedesktop.DBus.NameHasOwner"@,
        ),
        followed(
            linux::owner_arguments(BusTool::Gdbus, name),
            "--dest"@,
            "org.freedesktop.DBus"@,
        ),
        linux::owner_arguments(BusTool::Gdbus, name)[0] == "call"@,
        linux::owner_arguments(BusTool::Gdbus, name).contains("--session"@),
        linux::owner_arguments(BusTool::DbusSend, name).contains("--session"@),
        linux::owner_arguments(BusTool::DbusSend, name).contains("--print-reply"@),
{
    let a = linux::owner_arguments(BusTool::Gdbus, name);
    assert(a[1] == "--session"@ && a[2] == "--dest"@ && a[3] == "org.freedesktop.DBus"@);
    assert(a[7] == "org.freedesktop.DBus.NameHasOwner"@);
    let b = linux::owner_arguments(BusTool::DbusSend, name);
    assert(b[0] == "--session"@ && b[1] == "--print-reply"@);
    assert(b[4] == "org.freedesktop.DBus.NameHasOwner"@);
}

/// The file manager is asked for its open folders, and nobody else is.
pub proof fn law_the_file_manager_is_asked_for_its_folders()
    ensures
        followed(
            linux::folder_arguments(BusTool::Gdbus),
            "--dest"@,
            "org.freedesktop.FileManager1"@,
        ),
        followed(
            linux::folder_arguments(BusTool::Gdbus),
            "org.freedesktop.FileManager1"@,
            "OpenLocations"@,
        ),
        linux::folder_arguments(BusTool::Gdbus).contains("org.freedesktop.DBus.Properties.Get"@),
        linux::folder_arguments(BusTool::DbusSend).contains("org.freedesktop.DBus.Properties.Get"@),
        linux::folder_arguments(BusTool::DbusSend).contains(
            "--dest="@ + "org.freedesktop.FileManager1"@,
        ),
        followed(
            linux::folder_arguments(BusTool::DbusSend),
            "string:"@ + "org.freedesktop.FileManager1"@,
            "string:OpenLocations"@,
        ),
{
    let a = linux::folder_arguments(BusTool::Gdbus);
    assert(a[2] == "--dest"@ && a[3] == "org.freedesktop.FileManager1"@);
    assert(a[7] == "org.freedesktop.DBus.Properties.Get"@);
    assert(a[8] == "org.freedesktop.FileManager1"@ && a[9] == "OpenLocations"@);
    let b = linux::folder_arguments(BusTool::DbusSend);
    assert(b[2] == "--dest="@ + "org.freedesktop.FileManager1"@);
    assert(b[4] == "org.freedesktop.DBus.Properties.Get"@);
    assert(b[5] == "string:"@ + "org.freedesktop.FileManager1"@);
    assert(b[6] == "string:OpenLocations"@);
}

// ---------------------------------------------------------------------------
// The order of asking
// ---------------------------------------------------------------------------
/// The selection is exhausted before the clipboard is read, and the clipboard before
/// the file manager is asked. A list of URIs is asked for only where text came and the
/// tool knows forms, and of the same buffer.
pub proof fn law_the_selection_comes_before_the_clipboard(
    tool: Tool,
    buffer: Buffer,
    target: Target,
    text: bool,
)
    ensures
        match linux::next_read(tool, buffer, target, text) {
            Some((next, form)) => {
                &&& form == Target::UriList ==> next == buffer && target == Target::Text && text
                    && tool != Tool::Xsel
                &&& form == Target::Text ==> buffer == Buffer::Primary && next
                    == Buffer::Clipboard && (!text || target == Target::UriList || tool
                    == Tool::Xsel)
            },
            None => buffer == Buffer::Clipboard && (!text || target == Target::UriList || tool
                == Tool::Xsel),
        },
{
}

/// What the selection held as text is kept from the one reading that gave it, and no
/// other reading changes it.
pub proof fn law_the_selection_is_remembered(
    before: Option<Seq<char>>,
    buffer: Buffer,
    target: Target,
    came: Seq<char>,
)
    ensures
        linux::selected_after(before, Buffer::Primary, Target::Text, Some(came)) == Some(came),
        linux::selected_after(before, buffer, target, None) == before,
        linux::selected_after(before, Buffer::Clipboard, target, Some(came)) == before,
        linux::selected_after(before, buffer, Target::UriList, Some(came)) == before,
{
}

/// The bus is asked exactly where there is one and the selection held a plain name.
pub proof fn law_the_bus_is_asked_about_plain_names(bus: bool, selected: Option<Seq<char>>)
    ensures
        linux::last_resort(bus, selected) == Ask::Owner <==> bus && selected is Some
            && linux::plain_name(selected->0) is Some,
        linux::last_resort(bus, selected) == Ask::Nothing <==> !(bus && selected is Some
            && linux::plain_name(selected->0) is Some),
{
}

/// A reply says that there is an owner wherever the word stands in it.
pub proof fn law_the_word_may_stand_anywhere(a: Seq<char>, w: Seq<char>, b: Seq<char>)
    ensures
        linux::holds(a + w + b, w),
{
    let t = a + w + b;
    let i = a.len() as int;
    assert(t.subrange(i, i + w.len()) =~= w);
}

/// A reply in which the word cannot be found does not hold it.
pub proof fn law_a_word_that_is_held_is_there(t: Seq<char>, w: Seq<char>)
    requires
        linux::holds(t, w),
    ensures
        exists|a: Seq<char>, b: Seq<char>| t == #[trigger] (a + w + b),
{
    let i = choose|i: int|
        0 <= i <= t.len() - w.len() && #[trigger] t.subrange(i, i + w.len()) == w;
    let a = t.subrange(0, i);
    let b = t.skip(i + w.len());
    assert(t =~= a + w + b) by {
        assert forall|k: int| 0 <= k < t.len() implies t[k] == (a + w + b)[k] by {
            if i <= k < i + w.len() {
                assert(w[k - i] == t.subrange(i, i + w.len())[k - i]);
            }
        }
    }
}

// ---------------------------------------------------------------------------
// Text that is a path
// ---------------------------------------------------------------------------
/// The byte as the character that ASCII has for it.
pub open spec fn as_ascii(b: u8) -> char {
    b as char
}

/// A `%` with two hexadecimal digits behind it, in either case, is the byte that the
/// digits write; whatever follows is decoded on its own.
pub proof fn law_an_escape_is_its_byte(hi: u8, lo: u8, rest: Seq<u8>)
    requires
        hi < 0x80,
        lo < 0x80,
        text::worth(as_ascii(hi)) >= 0,
        text::worth(as_ascii(lo)) >= 0,
    ensures
        linux::decoded(seq![0x25u8, hi, lo] + rest).len() == 1 + linux::decoded(rest).len(),
        linux::decoded(seq![0x25u8, hi, lo] + rest)[0] == 16 * text::worth(as_ascii(hi))
            + text::worth(as_ascii(lo)),
        linux::decoded(seq![0x25u8, hi, lo] + rest).skip(1) == linux::decoded(rest),
{
    let b = seq![0x25u8, hi, lo] + rest;
    assert(b.skip(3) =~= rest);
    assert(linux::decoded(b).skip(1) =~= linux::decoded(rest));
}

/// Any other byte stays as it is, and so does a `%` that no two digits follow.
pub proof fn law_other_bytes_stay(x: u8, rest: Seq<u8>)
    requires
        x != 0x25 || rest.len() < 2 || rest[0] >= 0x80 || rest[1] >= 0x80 || text::worth(
            as_ascii(rest[0]),
        ) < 0 || text::worth(as_ascii(rest[1])) < 0,
    ensures
        linux::decoded(seq![x] + rest) == seq![x] + linux::decoded(rest),
        linux::decoded(Seq::empty()) == Seq::<u8>::empty(),
{
    let b = seq![x] + rest;
    assert(b.skip(1) =~= rest);
    if rest.len() >= 2 {
        assert(b[1] == rest[0] && b[2] == rest[1]);
    }
}

proof fn lemma_file_uri(head: Seq<char>, part: Seq<char>)
    requires
        text::lower(head) == "file:"@,
    ensures
        head.len() == 5,
        linux::starts_folded(head + part, "file:"@),
        (head + part).skip(5) == part,
{
    reveal_strlit("file:");
    let uri = head + part;
    assert(text::lower(head).len() == head.len());
    assert(text::lower(uri).subrange(0, 5) =~= text::lower(head));
    assert(uri.skip(5) =~= part);
}

proof fn lemma_rooted(part: Seq<char>)
    requires
        part.len() > 0,
        part[0] == '/',
        !part.contains('%'),
        !part.contains('\0'),
    ensures
        linux::decoded(utf8::encode_utf8(part)) == utf8::encode_utf8(part),
        path::absolute(PathView::unix(utf8::encode_utf8(part))),
        !utf8::encode_utf8(part).contains(0u8),
{
    text::lemma_plain_bytes(part, 0x25);
    text::lemma_plain_bytes(part, 0);
    linux::law_plain_text_decodes_to_itself(utf8::encode_utf8(part));
    vstd::utf8::encode_utf8_first_scalar(part);
    let b = utf8::encode_utf8(part);
    assert(part[0] as u32 == 0x2f);
    assert(vstd::utf8::leading_byte_width_1(0x2f) == 0x2f) by (bit_vector);
    assert(b[0] == vstd::utf8::encode_scalar(part[0] as u32)[0]);
}

/// A `file:` URI of this machine names the path in it: with two slashes and no host,
/// with `localhost` for a host, in whatever case, or with the path alone.
pub proof fn law_a_file_uri_names_its_path(head: Seq<char>, host: Seq<char>, part: Seq<char>)
    requires
        text::lower(head) == "file:"@,
        host.len() == 0 || text::lower(host) == "localhost"@,
        part.len() > 0,
        part[0] == '/',
        !part.contains('%'),
        !part.contains('\0'),
    ensures
        linux::uri_path(head + ("//"@ + host + part)) == Some(
            PathView::unix(utf8::encode_utf8(part)),
        ),
        !(part.len() > 1 && part[1] == '/') ==> linux::uri_path(head + part) == Some(
            PathView::unix(utf8::encode_utf8(part)),
        ),
{
    reveal_strlit("//");
    reveal_strlit("localhost");
    lemma_rooted(part);
    let rest = "//"@ + host + part;
    lemma_file_uri(head, rest);
    lemma_file_uri(head, part);
    assert(rest.subrange(0, 2) =~= "//"@);
    let after = rest.skip(2);
    assert(after =~= host + part);
    assert forall|i: int| 0 <= i < host.len() implies #[trigger] after[i] != '/' by {
        assert(after[i] == host[i]);
        assert("localhost"@ =~= seq!['l', 'o', 'c', 'a', 'l', 'h', 'o', 's', 't']);
        assert(text::lower(host)[i] == text::lower_char(host[i]));
        assert(text::lower(host)[i] == "localhost"@[i]);
        assert(0 <= i < 9);
    }
    assert(after[host.len() as int] == '/');
    text::lemma_first_at_is(after, '/', host.len() as int);
    assert(after.subrange(0, host.len() as int) =~= host);
    assert(after.skip(host.len() as int) =~= part);
    if !(part.len() > 1 && part[1] == '/') {
        if text::starts(part, "//"@) {
            assert(part.subrange(0, 2)[1] == '/');
        }
    }
}

/// A URI of another machine names no path, and one of another scheme names none.
pub proof fn law_another_machine_names_no_path(head: Seq<char>, host: Seq<char>, part: Seq<char>)
    requires
        text::lower(head) == "file:"@,
        host.len() > 0,
        !host.contains('/'),
        text::lower(host) != "localhost"@,
        part.len() > 0 ==> part[0] == '/',
    ensures
        linux::uri_path(head + ("//"@ + host + part)) is None,
{
    reveal_strlit("//");
    let rest = "//"@ + host + part;
    lemma_file_uri(head, rest);
    assert(rest.subrange(0, 2) =~= "//"@);
    let after = rest.skip(2);
    assert(after =~= host + part);
    assert forall|i: int| 0 <= i < host.len() implies #[trigger] after[i] != '/' by {
        assert(host.contains(host[i]));
    }
    if part.len() > 0 {
        assert(after[host.len() as int] == '/');
    }
    text::lemma_first_at_is(after, '/', host.len() as int);
    assert(after.subrange(0, host.len() as int) =~= host);
}

/// A line that is an absolute path is that path, whatever white space stands around
/// it, and a line that begins with neither a slash nor a scheme is none.
pub proof fn law_a_line_that_is_a_path_is_taken(lead: Seq<char>, body: Seq<char>, tail: Seq<char>)
    requires
        forall|i: int| 0 <= i < lead.len() ==> text::white_space(#[trigger] lead[i]),
        forall|i: int| 0 <= i < tail.len() ==> text::white_space(#[trigger] tail[i]),
        body.len() > 0,
        !text::white_space(body[0]),
        !text::white_space(body.last()),
    ensures
        body[0] == '/' ==> linux::line_path(lead + body + tail) == Some(
            PathView::unix(utf8::encode_utf8(body)),
        ),
        body[0] != '/' && !body.contains(':') ==> linux::line_path(lead + body + tail) is None,
{
    text::law_space_and_case_are_set_aside(lead, body, tail);
    if body[0] != '/' && !body.contains(':') {
        text::lemma_first_at(body, ':', 0);
        let n = text::first_at(body, ':', 0);
        if n < body.len() {
            assert(body.contains(body[n]));
        }
    }
}

/// A line with the scheme of `file:` is the path that the URI names, and one with any
/// other scheme is none, however its path may look.
pub proof fn law_only_file_schemes_are_taken(name: Seq<char>, rest: Seq<char>)
    requires
        name.len() > 0,
        'a' <= name[0] <= 'z' || 'A' <= name[0] <= 'Z',
        forall|i: int|
            0 <= i < name.len() ==> 'a' <= #[trigger] name[i] <= 'z' || 'A' <= name[i] <= 'Z' || '0'
                <= name[i] <= '9' || name[i] == '+' || name[i] == '-' || name[i] == '.',
        rest.len() > 0 ==> !text::white_space(rest.last()),
    ensures
        text::lower(name) == "file"@ ==> linux::line_path(name + seq![':'] + rest)
            == linux::uri_path(name + seq![':'] + rest),
        text::lower(name) != "file"@ ==> linux::line_path(name + seq![':'] + rest) is None,
{
    let t = name + seq![':'] + rest;
    assert(t[0] == name[0]);
    assert(t.last() == (if rest.len() > 0 {
        rest.last()
    } else {
        ':'
    }));
    let none = Seq::<char>::empty();
    text::law_space_and_case_are_set_aside(none, t, none);
    assert(none + t + none =~= t);
    assert forall|i: int| 0 <= i < name.len() implies #[trigger] t[i] != ':' by {
        assert(t[i] == name[i]);
    }
    text::lemma_first_at_is(t, ':', name.len() as int);
    assert forall|i: int| 0 <= i < name.len() implies linux::scheme_char(#[trigger] t[i]) by {
        assert(t[i] == name[i]);
    }
    assert(t.subrange(0, name.len() as int) =~= name);
}

/// The paths of some lines are those of each, in order: one line more adds its path, or
/// nothing where it is none.
pub proof fn law_paths_are_taken_line_by_line(parts: Seq<Seq<char>>, line: Seq<char>)
    ensures
        linux::line_paths(Seq::empty()) == Seq::<PathView>::empty(),
        linux::line_path(line) is Some ==> linux::line_paths(parts.push(line))
            == linux::line_paths(parts).push(linux::line_path(line)->0),
        linux::line_path(line) is None ==> linux::line_paths(parts.push(line))
            == linux::line_paths(parts),
        linux::uri_paths(Seq::empty()) == Seq::<PathView>::empty(),
        linux::uri_path(line) is Some ==> linux::uri_paths(parts.push(line)) == linux::uri_paths(
            parts,
        ).push(linux::uri_path(line)->0),
        linux::uri_path(line) is None ==> linux::uri_paths(parts.push(line)) == linux::uri_paths(
            parts,
        ),
{
    assert(parts.push(line).drop_last() =~= parts);
}

/// No more than thirty-two lines are looked at, and those are the first.
pub proof fn law_the_first_lines_are_looked_at(t: Seq<char>, i: int)
    ensures
        linux::first_lines(t).len() <= 32,
        text::lines(t).len() <= 32 ==> linux::first_lines(t) == text::lines(t),
        text::lines(t).len() > 32 ==> linux::first_lines(t).len() == 32,
        0 <= i < linux::first_lines(t).len() ==> linux::first_lines(t)[i] == text::lines(t)[i],
{
}

/// What is taken for the name of a file is one: not empty, no longer than a name may
/// be, one component, no way up, and nothing that cannot be typed.
pub proof fn law_a_plain_name_is_one_component(t: Seq<char>)
    ensures
        linux::plain_name(t) is Some ==> ({
            let first = text::trimmed(text::lines(t)[0]);
            &&& text::lines(t).len() > 0
            &&& linux::plain_name(t)->0 == utf8::encode_utf8(first)
            &&& 0 < first.len()
            &&& linux::plain_name(t)->0.len() <= 255
            &&& !first.contains('/')
            &&& first != "."@
            &&& first != ".."@
            &&& forall|i: int| 0 <= i < first.len() ==> !style::is_control(#[trigger] first[i])
        }),
{
}

/// An ordinary name on a line of its own is taken for one: whatever holds no slash, no
/// colon and no control character, is not too long and is neither of the two names for
/// directories.
pub proof fn law_an_ordinary_name_is_taken(body: Seq<char>, rest: Seq<char>)
    requires
        body.len() > 0,
        !text::white_space(body[0]),
        !text::white_space(body.last()),
        utf8::encode_utf8(body).len() <= 255,
        forall|i: int|
            0 <= i < body.len() ==> #[trigger] body[i] != '/' && body[i] != ':' && body[i] >= ' '
                && !('\u{7f}' <= body[i] <= '\u{9f}'),
        body != "."@,
        body != ".."@,
    ensures
        linux::plain_name(body) == Some(utf8::encode_utf8(body)),
        linux::plain_name(body + seq!['\n'] + rest) == Some(utf8::encode_utf8(body)),
{
    let none = Seq::<char>::empty();
    text::law_space_and_case_are_set_aside(none, body, none);
    assert(none + body + none =~= body);
    assert(body.last() == body[body.len() - 1]);
    text::law_a_text_is_its_lines(body, rest);
    text::lemma_first_at(body, ':', 0);
    assert(!body.contains('/'));
    assert forall|i: int| 0 <= i < body.len() implies !style::is_control(#[trigger] body[i]) by {}
}

// ---------------------------------------------------------------------------
// Replies of the bus
// ---------------------------------------------------------------------------
proof fn lemma_closes(t: Seq<char>, i: int, body: Seq<char>, quote: char)
    requires
        0 <= i,
        i + body.len() < t.len(),
        t.subrange(i, i + body.len()) == body,
        t[i + body.len()] == quote,
        quote != '\\',
        forall|k: int| 0 <= k < body.len() ==> #[trigger] body[k] != quote && body[k] != '\\',
    ensures
        linux::closed_string(t, i, quote) == Some((body, i + body.len() + 1)),
    decreases body.len(),
{
    if body.len() == 0 {
        assert(body =~= Seq::<char>::empty());
    } else {
        assert(t[i] == t.subrange(i, i + body.len())[0]);
        let rest = body.drop_first();
        assert(t.subrange(i + 1, i + 1 + rest.len()) =~= rest) by {
            assert forall|k: int| 0 <= k < rest.len() implies t[i + 1 + k] == rest[k] by {
                assert(t.subrange(i, i + body.len())[k + 1] == body[k + 1]);
            }
        }
        lemma_closes(t, i + 1, rest, quote);
        assert(seq![t[i]] + rest =~= body);
    }
}

proof fn lemma_no_quotes(t: Seq<char>, i: int, n: int)
    requires
        0 <= i <= n <= t.len(),
        forall|k: int| i <= k < n ==> #[trigger] t[k] != '\'' && t[k] != '"',
    ensures
        linux::strings_from(t, i) == linux::strings_from(t, n),
    decreases n - i,
{
    if i < n {
        lemma_no_quotes(t, i + 1, n);
    }
}

/// A text in quotes, single or double, is read as what stands between them, and the
/// rest of the reply after it: what stands before the quotes is passed over.
pub proof fn law_what_stands_in_quotes_is_read(
    lead: Seq<char>,
    quote: char,
    body: Seq<char>,
    rest: Seq<char>,
)
    requires
        quote == '\'' || quote == '"',
        forall|k: int| 0 <= k < lead.len() ==> #[trigger] lead[k] != '\'' && lead[k] != '"',
        forall|k: int| 0 <= k < body.len() ==> #[trigger] body[k] != quote && body[k] != '\\',
    ensures
        ({
            let t = lead + seq![quote] + body + seq![quote] + rest;
            let n = lead.len() + body.len() + 2;
            &&& linux::strings_from(t, 0) == seq![body] + linux::strings_from(t, n as int)
            &&& t.skip(n as int) == rest
        }),
{
    let t = lead + seq![quote] + body + seq![quote] + rest;
    let m = lead.len() as int;
    assert forall|k: int| 0 <= k < m implies #[trigger] t[k] != '\'' && t[k] != '"' by {
        assert(t[k] == lead[k]);
    }
    lemma_no_quotes(t, 0, m);
    assert(t[m] == quote);
    assert(t.subrange(m + 1, m + 1 + body.len()) =~= body);
    assert(t[m + 1 + body.len()] == quote);
    lemma_closes(t, m + 1, body, quote);
    assert(t.skip(m + body.len() + 2) =~= rest);
}

/// A reply without quotes holds no text, and a text that nothing closes is not read.
pub proof fn law_what_nothing_closes_is_not_read(lead: Seq<char>, quote: char, body: Seq<char>)
    requires
        quote == '\'' || quote == '"',
        forall|k: int| 0 <= k < lead.len() ==> #[trigger] lead[k] != '\'' && lead[k] != '"',
        forall|k: int| 0 <= k < body.len() ==> #[trigger] body[k] != quote,
    ensures
        linux::strings_from(lead, 0) == Seq::<Seq<char>>::empty(),
        linux::strings_from(lead + seq![quote] + body, 0) == Seq::<Seq<char>>::empty(),
{
    lemma_no_quotes(lead, 0, lead.len() as int);
    let t = lead + seq![quote] + body;
    let m = lead.len() as int;
    assert forall|k: int| 0 <= k < m implies #[trigger] t[k] != '\'' && t[k] != '"' by {
        assert(t[k] == lead[k]);
    }
    lemma_no_quotes(t, 0, m);
    assert forall|k: int| m < k < t.len() implies #[trigger] t[k] != quote by {
        assert(t[k] == body[k - m - 1]);
    }
    lemma_never_closes(t, m + 1, quote);
}

proof fn lemma_never_closes(t: Seq<char>, i: int, quote: char)
    requires
        0 <= i,
        forall|k: int| i <= k < t.len() ==> #[trigger] t[k] != quote,
    ensures
        linux::closed_string(t, i, quote) is None,
    decreases t.len() + 1 - i,
{
    if i < t.len() {
        if t[i] == '\\' {
            lemma_never_closes(t, i + 2, quote);
        } else {
            lemma_never_closes(t, i + 1, quote);
        }
    }
}

/// In a quoted text a backslash stands for the character behind it, even where that is
/// the quote.
pub proof fn law_a_backslash_takes_what_follows(t: Seq<char>, i: int, quote: char)
    requires
        0 <= i,
        i + 1 < t.len(),
        t[i] == '\\',
    ensures
        match linux::closed_string(t, i + 2, quote) {
            Some((rest, end)) => linux::closed_string(t, i, quote) == Some(
                (seq![t[i + 1]] + rest, end),
            ),
            None => linux::closed_string(t, i, quote) is None,
        },
{
}

/// Whatever a text says, what is taken from it is an absolute path without a zero byte.
pub proof fn law_only_absolute_paths_are_taken(line: Seq<char>)
    ensures
        linux::uri_path(line) is Some ==> {
            let p = linux::uri_path(line)->0;
            &&& p.platform == Platform::Unix
            &&& p.bytes.len() > 0 && p.bytes[0] == 0x2f
            &&& !p.bytes.contains(0u8)
        },
        linux::line_path(line) is Some && text::trimmed(line).len() > 0 && text::trimmed(line)[0]
            != '/' ==> linux::line_path(line) == linux::uri_path(text::trimmed(line)),
{
}

/// What came of reading a buffer is a path that stands in it, that was asked of, and that
/// was said yes of; where nothing came back, or nothing was said yes of, it is none.
pub proof fn law_what_was_read_is_a_path_in_it<F: Fn(&FilePath) -> bool>(
    t: Seq<char>,
    usable: F,
    p: PathView,
)
    ensures
        linux::read_gave(Some(t), usable, Some(p)) ==> linux::line_paths(
            linux::first_lines(t),
        ).contains(p) && probe::said(usable, p, true),
        linux::read_gave(Some(t), usable, None) ==> forall|i: int|
            0 <= i < linux::line_paths(linux::first_lines(t)).len() ==> probe::said(
                usable,
                #[trigger] linux::line_paths(linux::first_lines(t))[i],
                false,
            ),
        !linux::read_gave(None, usable, Some(p)),
        linux::read_gave(None, usable, None),
{
}

/// A reply that did not come names no folders.
pub proof fn law_no_reply_names_no_folders<F: Fn(&FilePath) -> bool>(is_dir: F, dirs: Seq<PathView>)
    ensures
        linux::reply_gave(None, is_dir, dirs) <==> dirs.len() == 0,
{
    if dirs.len() == 0 {
        assert(dirs =~= Seq::<PathView>::empty());
    }
}

/// A name is looked for in the open folders alone: what is found is that name in one of
/// them; and what is no plain name is not found at all.
pub proof fn law_a_name_is_found_in_a_folder<F: Fn(&FilePath) -> bool>(
    t: Seq<char>,
    dirs: Seq<PathView>,
    usable: F,
    p: PathView,
)
    ensures
        linux::name_gave(t, dirs, usable, Some(p)) ==> linux::plain_name(t) is Some
            && probe::in_each(dirs, linux::plain_name(t)->0).contains(p) && probe::said(
            usable,
            p,
            true,
        ),
        linux::plain_name(t) is None ==> linux::name_gave(t, dirs, usable, None),
{
}

proof fn lemma_first_colon(s: Seq<char>, i: int, n: int)
    requires
        0 <= i <= n < s.len(),
        s[n] == ':',
        forall|k: int| i <= k < n ==> #[trigger] s[k] != ':',
    ensures
        text::first_at(s, ':', i) == n,
    decreases n - i,
{
    if i < n {
        lemma_first_colon(s, i + 1, n);
    }
}

/// What stands before the first colon is a scheme exactly where it begins with an ASCII
/// letter and is made of ASCII letters, digits, pluses, minuses and dots.
pub proof fn law_what_a_scheme_is_made_of(head: Seq<char>, rest: Seq<char>)
    requires
        !head.contains(':'),
    ensures
        ({
            let letter = |c: char| 'a' <= c && c <= 'z' || 'A' <= c && c <= 'Z';
            let made = head.len() > 0 && letter(head[0]) && forall|i: int|
                0 <= i < head.len() ==> letter(#[trigger] head[i]) || ('0' <= head[i] && head[i]
                    <= '9') || head[i] == '+' || head[i] == '-' || head[i] == '.';
            linux::scheme(head + seq![':'] + rest) == (if made {
                Some(head)
            } else {
                None
            })
        }),
{
    let s = head + seq![':'] + rest;
    let n = head.len() as int;
    assert forall|k: int| 0 <= k < n implies #[trigger] s[k] != ':' by {
        assert(s[k] == head[k]);
        assert(head.contains(head[k]));
    }
    assert(s[n] == ':');
    lemma_first_colon(s, 0, n);
    assert(s.subrange(0, n) =~= head);
    let letter = |c: char| 'a' <= c && c <= 'z' || 'A' <= c && c <= 'Z';
    let made = head.len() > 0 && letter(head[0]) && forall|i: int|
        0 <= i < head.len() ==> letter(#[trigger] head[i]) || ('0' <= head[i] && head[i] <= '9')
            || head[i] == '+' || head[i] == '-' || head[i] == '.';
    if made {
        assert forall|i: int| 0 <= i < n implies linux::scheme_char(#[trigger] s[i]) by {
            assert(s[i] == head[i]);
        }
        assert(s[0] == head[0]);
    } else if n > 0 && linux::letter(s[0]) && (forall|i: int|
        0 <= i < n ==> linux::scheme_char(#[trigger] s[i])) {
        assert(s[0] == head[0]);
        assert forall|i: int| 0 <= i < head.len() implies letter(#[trigger] head[i]) || ('0'
            <= head[i] && head[i] <= '9') || head[i] == '+' || head[i] == '-' || head[i]
            == '.' by {
            assert(s[i] == head[i]);
            assert(linux::scheme_char(s[i]));
        }
    }
}

} // verus!
