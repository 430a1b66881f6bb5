//! What the window writes: titles, rows, the line at the bottom.
use vstd::prelude::*;

use crate::browser::{self, compact_with};
use crate::content::{ListEntry, MetaField, PreviewContent};
use crate::path::{self, FilePath, PathView};
use crate::state::{self, human_size, Siblings};
use crate::table::{self, Table};
use crate::text::{
    self, chars_of, debug, hex_digit, push_chars, push_decimal, push_hex, push_str, string_of,
};

verus! {

/// How many recent files the home screen lists.
pub const HOME_RECENT: usize = 8;

/// How many recent files the tray menu lists.
pub const TRAY_RECENT: usize = 8;

// ---------------------------------------------------------------------------
// Names and titles
// ---------------------------------------------------------------------------
/// The name that a path is shown under: its last part, or all of it where it has
/// none.
pub open spec fn shown_name(b: PathView) -> Seq<char> {
    match path::file_name_of(b) {
        Some(name) => text::lossy_text(name.bytes),
        None => text::lossy_text(b.bytes),
    }
}

/// The name that a path is shown under.
pub fn file_name(path: &FilePath) -> (r: String)
    ensures
        r@ == shown_name(path@),
{
    match path.file_name() {
        Some(name) => name.display(),
        None => path.display(),
    }
}

/// The title of a window that shows `b`.
pub open spec fn title_text(b: PathView) -> Seq<char> {
    "sekio — "@ + shown_name(b)
}

/// The title of a window that shows `path`.
pub fn title(path: &FilePath) -> (r: String)
    ensures
        r@ == title_text(path@),
{
    let mut out = chars_of("sekio — ");
    let name = file_name(path);
    push_str(&mut out, name.as_str());
    string_of(out.as_slice())
}

/// The title that a window opens with: the whole path it was started for.
pub fn first_title(path: Option<&FilePath>) -> (r: String)
    ensures
        r@ == (match path {
            Some(p) => "sekio — "@ + text::lossy_text(p@.bytes),
            None => "sekio"@,
        }),
{
    match path {
        Some(path) => {
            let mut out = chars_of("sekio — ");
            let shown = path.display();
            push_str(&mut out, shown.as_str());
            string_of(out.as_slice())
        },
        None => "sekio".to_owned(),
    }
}

/// Where the file stands among its neighbours, as `2 / 5`. Nothing is said of a
/// file that is alone, or that is not among them.
pub fn position_label(siblings: &Siblings) -> (r: Option<String>)
    requires
        siblings.wf(),
    ensures
        r is Some <==> siblings.index() is Some && siblings.files().len() > 1,
        r is Some ==> r->0@ == text::decimal((siblings.index()->0 + 1) as nat) + " / "@ + text::decimal(
            siblings.files().len(),
        ),
{
    match siblings.position() {
        Some(position) => if siblings.len() > 1 {
            let mut out: Vec<char> = Vec::new();
            push_decimal(&mut out, position as u64);
            push_str(&mut out, " / ");
            push_decimal(&mut out, siblings.len() as u64);
            assert(out@ =~= text::decimal((siblings.index()->0 + 1) as nat) + " / "@ + text::decimal(
                siblings.files().len(),
            ));
            Some(string_of(out.as_slice()))
        } else {
            None
        },
        None => None,
    }
}

/// What is said of a preview that could not be made.
pub fn failure_label(message: &str) -> (r: String)
    ensures
        r@ == "cannot preview: "@ + message@,
{
    let mut out = chars_of("cannot preview: ");
    push_str(&mut out, message);
    string_of(out.as_slice())
}

// ---------------------------------------------------------------------------
// The line at the bottom
// ---------------------------------------------------------------------------
/// A fact, as it is written.
pub open spec fn field_text(field: MetaField) -> Seq<char> {
    field.key@ + ": "@ + field.value@
}

/// Facts, as they are written.
pub open spec fn field_texts(fields: Seq<MetaField>) -> Seq<Seq<char>> {
    Seq::new(fields.len(), |i: int| field_text(fields[i]))
}

/// What the line at the bottom says of a preview, part by part. `zoom` is how far
/// a picture is enlarged, where it is.
pub open spec fn footer_texts(
    content: PreviewContent,
    truncated: bool,
    zoom: Option<Seq<char>>,
) -> Seq<Seq<char>> {
    match content {
        PreviewContent::Table { columns, rows, total_rows, total_cols, .. } => seq![
            table::size_line(
                rows@.len(),
                columns@.len(),
                total_rows as nat,
                total_cols as nat,
                truncated,
            ),
        ],
        PreviewContent::Text { lines, language } => seq![
            language@ + " · "@ + text::decimal(lines@.len()) + " lines"@,
        ],
        PreviewContent::Image { original_width, original_height, format, fields, .. } => {
            let size = format@ + " · "@ + text::decimal(original_width as nat) + "×"@ + text::decimal(
                original_height as nat,
            );
            (match zoom {
                Some(z) => seq![size, z],
                None => seq![size],
            }) + field_texts(fields@)
        },
        PreviewContent::Listing { entries } => seq![text::decimal(entries@.len()) + " entries"@],
        PreviewContent::Metadata { fields, .. } => seq![text::decimal(fields@.len()) + " fields"@],
        PreviewContent::HexDump { file_size, mime, .. } => seq![
            (match mime {
                Some(m) => m@,
                None => "binary"@,
            }) + " · "@ + state::size_text(file_size as nat),
        ],
    }
}

fn counted(n: usize, what: &str) -> (r: String)
    ensures
        r@ == text::decimal(n as nat) + what@,
{
    let mut out: Vec<char> = Vec::new();
    push_decimal(&mut out, n as u64);
    push_str(&mut out, what);
    assert(out@ =~= text::decimal(n as nat) + what@);
    string_of(out.as_slice())
}

fn one(s: String) -> (r: Vec<String>)
    ensures
        text::texts(r@) == seq![s@],
{
    let mut r: Vec<String> = Vec::new();
    r.push(s);
    assert(text::texts(r@) =~= seq![s@]);
    r
}

/// What the line at the bottom says of a preview, part by part.
pub fn footer(content: &PreviewContent, truncated: bool, zoom: Option<String>) -> (r: Vec<String>)
    ensures
        text::texts(r@) == footer_texts(*content, truncated, text::opt_text(zoom)),
{
    match content {
        PreviewContent::Table {
            columns,
            rows,
            sheets,
            active_sheet,
            total_rows,
            total_cols,
        } => {
            let table = Table {
                columns: columns.as_slice(),
                rows: rows.as_slice(),
                sheets: sheets.as_slice(),
                active_sheet: *active_sheet,
                total_rows: *total_rows,
                total_cols: *total_cols,
            };
            one(table.footer(truncated))
        },
        PreviewContent::Text { lines, language } => {
            let mut out = chars_of(language.as_str());
            push_str(&mut out, " · ");
            push_decimal(&mut out, lines.len() as u64);
            push_str(&mut out, " lines");
            one(string_of(out.as_slice()))
        },
        PreviewContent::Image { original_width, original_height, format, fields, .. } => {
            let mut out = chars_of(format.as_str());
            push_str(&mut out, " · ");
            push_decimal(&mut out, *original_width as u64);
            push_str(&mut out, "×");
            push_decimal(&mut out, *original_height as u64);
            let ghost size = out@;
            let mut all: Vec<String> = Vec::new();
            all.push(string_of(out.as_slice()));
            let ghost zoomed = text::opt_text(zoom);
            match zoom {
                Some(zoom) => {
                    all.push(zoom);
                },
                None => {},
            }
            let ghost head = text::texts(all@);
            assert(head =~= (match zoomed {
                Some(z) => seq![size, z],
                None => seq![size],
            }));
            let mut i: usize = 0;
            assert(text::texts(all@) =~= head + field_texts(fields@.subrange(0, 0)));
            while i < fields.len()
                invariant
                    i <= fields.len(),
                    text::texts(all@) == head + field_texts(fields@.subrange(0, i as int)),
                decreases fields.len() - i,
            {
                let ghost before = text::texts(all@);
                let mut out = chars_of(fields[i].key.as_str());
                push_str(&mut out, ": ");
                push_str(&mut out, fields[i].value.as_str());
                all.push(string_of(out.as_slice()));
                assert(text::texts(all@) =~= before.push(field_text(fields@[i as int])));
                assert(text::texts(all@) =~= head + field_texts(fields@.subrange(0, i + 1)));
                i = i + 1;
            }
            assert(fields@.subrange(0, fields@.len() as int) =~= fields@);
            all
        },
        PreviewContent::Listing { entries } => one(counted(entries.len(), " entries")),
        PreviewContent::Metadata { fields, .. } => one(counted(fields.len(), " fields")),
        PreviewContent::HexDump { file_size, mime, .. } => {
            let mut out = match mime {
                Some(mime) => chars_of(mime.as_str()),
                None => chars_of("binary"),
            };
            push_str(&mut out, " · ");
            let size = human_size(*file_size);
            push_str(&mut out, size.as_str());
            one(string_of(out.as_slice()))
        },
    }
}

/// How long a preview took.
pub fn elapsed_label(millis: u64) -> (r: String)
    ensures
        r@ == text::decimal(millis as nat) + " ms"@,
{
    let mut out: Vec<char> = Vec::new();
    push_decimal(&mut out, millis);
    push_str(&mut out, " ms");
    assert(out@ =~= text::decimal(millis as nat) + " ms"@);
    string_of(out.as_slice())
}

// ---------------------------------------------------------------------------
// Rows
// ---------------------------------------------------------------------------
/// `n` blanks.
pub open spec fn blanks(n: int) -> Seq<char> {
    Seq::new(
        if n > 0 {
            n as nat
        } else {
            0
        },
        |i: int| ' ',
    )
}

/// `s`, with blanks before it up to the width `n`.
pub open spec fn right_aligned(s: Seq<char>, n: int) -> Seq<char> {
    blanks(n - s.len()) + s
}

fn push_blanks(out: &mut Vec<char>, n: usize)
    ensures
        final(out)@ == old(out)@ + blanks(n as int),
{
    let mut i: usize = 0;
    while i < n
        invariant
            i <= n,
            out@ == old(out)@ + blanks(i as int),
        decreases n - i,
    {
        out.push(' ');
        assert(out@ =~= old(out)@ + blanks(i + 1));
        i = i + 1;
    }
}

/// The name of an entry, with a slash behind it where it is a directory.
pub open spec fn entry_text(entry: ListEntry) -> Seq<char> {
    if entry.is_dir {
        entry.name@ + "/"@
    } else {
        entry.name@
    }
}

/// The name of an entry, with a slash behind it where it is a directory.
pub fn entry_label(entry: &ListEntry) -> (r: String)
    ensures
        r@ == entry_text(*entry),
{
    if entry.is_dir {
        let mut out = chars_of(entry.name.as_str());
        push_str(&mut out, "/");
        string_of(out.as_slice())
    } else {
        entry.name.clone()
    }
}

/// The size of an entry, in its column; blank where it is not known.
pub fn size_column(entry: &ListEntry) -> (r: String)
    ensures
        r@ == right_aligned(
            match entry.size {
                Some(n) => state::size_text(n as nat),
                None => Seq::empty(),
            },
            10,
        ) + "  "@,
{
    let size = match entry.size {
        Some(n) => {
            let text = human_size(n);
            chars_of(text.as_str())
        },
        None => Vec::new(),
    };
    let ghost wanted = right_aligned(size@, 10) + "  "@;
    let mut out: Vec<char> = Vec::new();
    if size.len() < 10 {
        push_blanks(&mut out, 10 - size.len());
    }
    push_chars(&mut out, size.as_slice());
    push_str(&mut out, "  ");
    assert(out@ =~= wanted);
    assert(entry.size is None ==> size@ =~= Seq::<char>::empty());
    string_of(out.as_slice())
}

/// What the browser's list says in place of rows: that there is none to show, and
/// why. `visible` is how many rows the search leaves.
pub open spec fn listing_text(
    failed: bool,
    loading: bool,
    entries: nat,
    visible: nat,
    search: Seq<char>,
) -> Option<Seq<char>> {
    if failed {
        Some("cannot list this directory"@)
    } else if entries == 0 && loading {
        Some("listing…"@)
    } else if entries == 0 {
        Some("empty"@)
    } else if visible == 0 {
        Some("nothing matches "@ + text::debug_text(search))
    } else {
        None
    }
}

/// What the browser's list says in place of rows, where it has none to show.
pub fn listing_note(
    failed: bool,
    loading: bool,
    entries: usize,
    visible: usize,
    search: &str,
) -> (r: Option<String>)
    ensures
        text::opt_text(r) == listing_text(failed, loading, entries as nat, visible as nat, search@),
{
    if failed {
        Some("cannot list this directory".to_owned())
    } else if loading && entries == 0 {
        Some("listing…".to_owned())
    } else if entries == 0 {
        Some("empty".to_owned())
    } else if visible == 0 {
        let mut out = chars_of("nothing matches ");
        let quoted = debug(search);
        push_str(&mut out, quoted.as_str());
        Some(string_of(out.as_slice()))
    } else {
        None
    }
}

/// A row of the list of recent files.
#[derive(Debug)]
pub struct RecentRow {
    /// The file's name.
    pub name: String,
    /// The directory it is in, short enough to stand beside it.
    pub folder: Option<String>,
    /// The whole path.
    pub full: String,
}

/// The row of the file `b`.
pub open spec fn row_of(row: RecentRow, b: PathView, home: Option<PathView>) -> bool {
    &&& row.name@ == shown_name(b)
    &&& row.full@ == text::lossy_text(b.bytes)
    &&& text::opt_text(row.folder) == (match path::parent_of(b) {
        Some(p) => Some(browser::fitted(browser::homely(p, home))),
        None => None,
    })
}

/// The rows of the home screen's list: the newest few.
pub fn recent_rows(paths: &[FilePath], home: Option<&FilePath>) -> (r: Vec<RecentRow>)
    ensures
        r.len() == (if paths.len() < HOME_RECENT {
            paths.len()
        } else {
            HOME_RECENT
        }),
        forall|i: int|
            0 <= i < r.len() ==> row_of(
                #[trigger] r@[i],
                paths@[i]@,
                match home {
                    Some(h) => Some(h@),
                    None => None,
                },
            ),
{
    let n: usize = if paths.len() < HOME_RECENT {
        paths.len()
    } else {
        HOME_RECENT
    };
    let ghost at = match home {
        Some(h) => Some(h@),
        None => None,
    };
    let mut out: Vec<RecentRow> = Vec::new();
    let mut i: usize = 0;
    while i < n
        invariant
            i <= n <= paths.len(),
            out.len() == i,
            at == (match home {
                Some(h) => Some(h@),
                None => None,
            }),
            forall|k: int| 0 <= k < i ==> row_of(#[trigger] out@[k], paths@[k]@, at),
        decreases n - i,
    {
        let folder = match paths[i].parent() {
            Some(parent) => Some(compact_with(&parent, home)),
            None => None,
        };
        out.push(RecentRow { name: file_name(&paths[i]), folder, full: paths[i].display() });
        i = i + 1;
    }
    out
}

/// The recent files that the tray menu lists: the newest few.
pub fn tray_recent(paths: &[FilePath]) -> (r: Vec<FilePath>)
    ensures
        path::path_bytes(r@) == path::path_bytes(paths@).take(
            if paths.len() < TRAY_RECENT {
                paths.len() as int
            } else {
                TRAY_RECENT as int
            },
        ),
{
    let n: usize = if paths.len() < TRAY_RECENT {
        paths.len()
    } else {
        TRAY_RECENT
    };
    let mut out: Vec<FilePath> = Vec::new();
    let mut i: usize = 0;
    while i < n
        invariant
            i <= n <= paths.len(),
            path::path_bytes(out@) =~= path::path_bytes(paths@).take(i as int),
        decreases n - i,
    {
        let ghost before = out@;
        out.push(paths[i].copy());
        assert(path::path_bytes(out@) =~= path::path_bytes(before).push(paths@[i as int]@));
        i = i + 1;
    }
    out
}

// ---------------------------------------------------------------------------
// Bytes
// ---------------------------------------------------------------------------
/// How many bytes a row of a dump holds.
pub const ROW: usize = 16;

/// How many rows a dump has.
pub fn hex_rows(len: usize) -> (r: usize)
    ensures
        r == (len as int + 15) / 16,
        len <= r * 16 < len + 16,
{
    let whole: usize = len / 16;
    if len % 16 == 0 {
        whole
    } else {
        whole + 1
    }
}

/// The bytes of a row of a dump: sixteen, or what is left.
pub open spec fn row_bytes(data: Seq<u8>, row: int) -> Seq<u8> {
    data.subrange(
        row * 16,
        if row * 16 + 16 < data.len() {
            row * 16 + 16
        } else {
            data.len() as int
        },
    )
}

/// The bytes of a row of a dump.
pub fn hex_chunk(data: &[u8], row: usize) -> (r: &[u8])
    requires
        row < (data@.len() + 15) / 16,
    ensures
        r@ == data@.subrange(
            row * 16,
            if row * 16 + 16 < data@.len() {
                row * 16 + 16
            } else {
                data@.len() as int
            },
        ),
        r@ == row_bytes(data@, row as int),
        0 < r@.len() <= 16,
{
    let len: usize = data.len();
    assert(row * 16 < len);
    let start: usize = row * 16;
    let left: usize = len - start;
    let end: usize = if left > 16 {
        start + 16
    } else {
        data.len()
    };
    vstd::slice::slice_subrange(data, start, end)
}

/// The column with the place of a row, counted in bytes.
pub fn hex_offset(row: usize) -> (r: String)
    requires
        row * 16 <= usize::MAX,
    ensures
        r@ == text::hex_text((row * 16) as nat, 8) + "  "@,
{
    let mut out: Vec<char> = Vec::new();
    push_hex(&mut out, (row * 16) as u64, 8);
    push_str(&mut out, "  ");
    assert(out@ =~= text::hex_text((row * 16) as nat, 8) + "  "@);
    string_of(out.as_slice())
}

/// What stands in column `j` of a row of bytes: a byte, or as much blank, and a
/// gap behind the eighth.
pub open spec fn hex_column(chunk: Seq<u8>, j: int) -> Seq<char> {
    (if 0 <= j < chunk.len() {
        seq![text::hex_char(chunk[j] as int / 16), text::hex_char(chunk[j] as int % 16), ' ']
    } else {
        blanks(3)
    }) + (if j == 7 {
        blanks(1)
    } else {
        blanks(0)
    })
}

/// The first `n` columns of a row of bytes.
pub open spec fn hex_line(chunk: Seq<u8>, n: nat) -> Seq<char>
    decreases n,
{
    if n == 0 {
        Seq::empty()
    } else {
        hex_line(chunk, (n - 1) as nat) + hex_column(chunk, n - 1)
    }
}

/// A row of bytes in hexadecimal. A short row is filled up with blanks, so what
/// stands behind it lines up.
pub fn hex_columns(chunk: &[u8]) -> (r: String)
    ensures
        r@ == hex_line(chunk@, 16),
{
    let mut out: Vec<char> = Vec::new();
    let mut j: usize = 0;
    while j < ROW
        invariant
            j <= ROW,
            out@ == hex_line(chunk@, j as nat),
        decreases ROW - j,
    {
        let ghost before = out@;
        if j < chunk.len() {
            let b: u8 = chunk[j];
            out.push(hex_digit(b / 16));
            out.push(hex_digit(b % 16));
            out.push(' ');
        } else {
            push_blanks(&mut out, 3);
        }
        if j == 7 {
            push_blanks(&mut out, 1);
        }
        assert(out@ =~= before + hex_column(chunk@, j as int));
        j = j + 1;
    }
    string_of(out.as_slice())
}

/// A byte as a character, where it can be shown as one.
pub open spec fn shown_byte(b: u8) -> char {
    if 0x20 <= b <= 0x7e {
        b as char
    } else {
        '.'
    }
}

/// A row of bytes as characters.
pub open spec fn ascii_line(chunk: Seq<u8>) -> Seq<char> {
    Seq::new(chunk.len(), |i: int| shown_byte(chunk[i]))
}

/// A row of bytes as characters: what is not printable is a dot.
pub fn ascii_columns(chunk: &[u8]) -> (r: String)
    ensures
        r@ == ascii_line(chunk@),
{
    let mut out: Vec<char> = Vec::new();
    let mut i: usize = 0;
    while i < chunk.len()
        invariant
            i <= chunk.len(),
            out@ == ascii_line(chunk@).subrange(0, i as int),
        decreases chunk.len() - i,
    {
        let b: u8 = chunk[i];
        out.push(
            if 0x20 <= b && b <= 0x7e {
                b as char
            } else {
                '.'
            },
        );
        assert(out@ =~= ascii_line(chunk@).subrange(0, i + 1));
        i = i + 1;
    }
    assert(ascii_line(chunk@).subrange(0, chunk@.len() as int) =~= ascii_line(chunk@));
    string_of(out.as_slice())
}

/// The column behind the bytes: the same bytes as characters, between bars.
pub fn ascii_cell(chunk: &[u8]) -> (r: String)
    ensures
        r@ == " |"@ + ascii_line(chunk@) + "|"@,
{
    let mut out = chars_of(" |");
    let shown = ascii_columns(chunk);
    push_str(&mut out, shown.as_str());
    push_str(&mut out, "|");
    string_of(out.as_slice())
}

// ---------------------------------------------------------------------------
// Places, keys, drops
// ---------------------------------------------------------------------------
/// The directories below home that are worth a click.
pub open spec fn place_name(i: int) -> Seq<char> {
    if i == 0 {
        "Documents"@
    } else if i == 1 {
        "Downloads"@
    } else if i == 2 {
        "Pictures"@
    } else {
        "Desktop"@
    }
}

/// The names of the directories below home that are worth a click.
pub fn place_names() -> (r: [&'static str; 4])
    ensures
        forall|i: int| 0 <= i < 4 ==> (#[trigger] r@[i])@ == place_name(i),
{
    ["Documents", "Downloads", "Pictures", "Desktop"]
}

/// A place by its name and where it is.
pub type PlaceView = (Seq<char>, PathView);

/// Places by their names and where they are.
pub open spec fn place_views(v: Seq<(String, FilePath)>) -> Seq<PlaceView> {
    Seq::new(v.len(), |i: int| ((v[i].0)@, (v[i].1)@))
}

/// The first `n` of the directories below `home`, those that are there.
pub open spec fn places_below(home: PathView, present: Seq<bool>, n: nat) -> Seq<PlaceView>
    decreases n,
{
    if n == 0 {
        Seq::empty()
    } else {
        let before = places_below(home, present, (n - 1) as nat);
        if present[n - 1] {
            before.push(
                (place_name(n - 1), path::joined(home, vstd::utf8::encode_utf8(place_name(n - 1)))),
            )
        } else {
            before
        }
    }
}

/// The places that the browser offers: home, and what is there of the directories
/// below it. `present` is, for each of them, whether it is there. Without a home
/// there are none.
pub fn places(home: Option<&FilePath>, present: [bool; 4]) -> (r: Vec<(String, FilePath)>)
    ensures
        place_views(r@) == (match home {
            Some(h) => seq![("Home"@, h@)] + places_below(h@, present@, 4),
            None => Seq::empty(),
        }),
{
    let mut out: Vec<(String, FilePath)> = Vec::new();
    match home {
        Some(home) => {
            let names = place_names();
            out.push(("Home".to_owned(), home.copy()));
            let mut i: usize = 0;
            assert(place_views(out@) =~= seq![("Home"@, home@)] + places_below(home@, present@, 0));
            while i < 4
                invariant
                    i <= 4,
                    forall|k: int| 0 <= k < 4 ==> (#[trigger] names@[k])@ == place_name(k),
                    place_views(out@) == seq![("Home"@, home@)] + places_below(
                        home@,
                        present@,
                        i as nat,
                    ),
                decreases 4 - i,
            {
                let ghost before = place_views(out@);
                if present[i] {
                    out.push((names[i].to_owned(), home.join_str(names[i])));
                    assert(place_views(out@) =~= before.push(
                        (
                            place_name(i as int),
                            path::joined(home@, vstd::utf8::encode_utf8(place_name(i as int))),
                        ),
                    ));
                }
                assert(place_views(out@) =~= seq![("Home"@, home@)] + places_below(
                    home@,
                    present@,
                    (i + 1) as nat,
                ));
                i = i + 1;
            }
            out
        },
        None => {
            assert(place_views(out@) =~= Seq::<PlaceView>::empty());
            out
        },
    }
}

/// The keys that do something, and what they do.
pub fn keys() -> (r: [(&'static str, &'static str); 7])
    ensures
        r@[0].0@ == "Ctrl+O"@ && r@[0].1@ == "open a file"@,
        r@[1].0@ == "Ctrl+B"@ && r@[1].1@ == "built-in file browser"@,
        r@[2].0@ == "← → ↑ ↓"@ && r@[2].1@ == "previous / next file in the folder"@,
        r@[3].0@ == "Ctrl +/-"@ && r@[3].1@ == "zoom, Ctrl+0 to reset"@,
        r@[4].0@ == "Space"@ && r@[4].1@ == "close the preview"@,
        r@[5].0@ == "Esc"@ && r@[5].1@ == "back to this screen"@,
        r@[6].0@ == "Ctrl+Q"@ && r@[6].1@ == "quit"@,
{
    [
        ("Ctrl+O", "open a file"),
        ("Ctrl+B", "built-in file browser"),
        ("← → ↑ ↓", "previous / next file in the folder"),
        ("Ctrl +/-", "zoom, Ctrl+0 to reset"),
        ("Space", "close the preview"),
        ("Esc", "back to this screen"),
        ("Ctrl+Q", "quit"),
    ]
}

/// The first of some optional paths that is there.
pub open spec fn first_some(files: Seq<Option<FilePath>>) -> Option<PathView>
    decreases files.len(),
{
    if files.len() == 0 {
        None
    } else if files[0] is Some {
        path::opt_path(files[0])
    } else {
        first_some(files.drop_first())
    }
}

/// The path to open of what was dropped on the window: the first that has one.
/// The others are its neighbours, a key away.
pub fn dropped_path(files: &[Option<FilePath>]) -> (r: Option<FilePath>)
    ensures
        path::opt_path(r) == first_some(files@),
{
    let mut i: usize = 0;
    assert(files@.skip(0) =~= files@);
    while i < files.len()
        invariant
            i <= files.len(),
            first_some(files@) == first_some(files@.skip(i as int)),
        decreases files.len() - i,
    {
        assert(files@.skip(i as int).drop_first() =~= files@.skip(i + 1));
        match &files[i] {
            Some(path) => {
                return Some(path.copy());
            },
            None => {},
        }
        i = i + 1;
    }
    None
}

// ---------------------------------------------------------------------------
// Laws
// ---------------------------------------------------------------------------
proof fn lemma_hex_line_len(chunk: Seq<u8>, n: nat)
    ensures
        hex_line(chunk, n).len() == 3 * n + (if n > 7 {
            1int
        } else {
            0
        }),
    decreases n,
{
    if n > 0 {
        lemma_hex_line_len(chunk, (n - 1) as nat);
    }
}

/// Every row of a dump is as wide as a full one.
pub proof fn law_rows_of_bytes_line_up(a: Seq<u8>, b: Seq<u8>)
    ensures
        hex_line(a, 16).len() == hex_line(b, 16).len(),
{
    lemma_hex_line_len(a, 16);
    lemma_hex_line_len(b, 16);
}

/// Where column `j` of a row of bytes begins: each takes three places, and a gap
/// stands behind the eighth.
pub open spec fn column_at(j: int) -> int {
    3 * j + (if j >= 8 {
        1int
    } else {
        0
    })
}

proof fn lemma_hex_line_keeps(chunk: Seq<u8>, j: int, n: nat)
    requires
        0 <= j < n,
    ensures
        column_at(j) + 3 <= hex_line(chunk, n).len(),
        hex_line(chunk, n).subrange(column_at(j), column_at(j) + 3) == hex_column(
            chunk,
            j,
        ).subrange(0, 3),
        j == 7 ==> hex_line(chunk, n)[24] == ' ',
    decreases n,
{
    let m = (n - 1) as nat;
    lemma_hex_line_len(chunk, m);
    lemma_hex_line_len(chunk, n);
    let before = hex_line(chunk, m);
    if j < m {
        lemma_hex_line_keeps(chunk, j, m);
        assert(hex_line(chunk, n).subrange(column_at(j), column_at(j) + 3) =~= before.subrange(
            column_at(j),
            column_at(j) + 3,
        ));
    } else {
        assert(hex_line(chunk, n).subrange(column_at(j), column_at(j) + 3) =~= hex_column(
            chunk,
            j,
        ).subrange(0, 3));
    }
}

/// A row of bytes reads back: the two digits in the place of a byte are that byte in
/// base sixteen, in lower case, with a blank behind them, and the place of a byte that
/// is not there is blank.
pub proof fn law_a_row_of_bytes_reads_back(chunk: Seq<u8>, j: int)
    requires
        0 <= j < 16,
    ensures
        hex_line(chunk, 16).len() == 49,
        j < chunk.len() ==> 16 * text::worth(hex_line(chunk, 16)[column_at(j)]) + text::worth(
            hex_line(chunk, 16)[column_at(j) + 1],
        ) == chunk[j],
        j < chunk.len() ==> 0 <= text::worth(hex_line(chunk, 16)[column_at(j) + 1]) < 16,
        j < chunk.len() ==> !('A' <= hex_line(chunk, 16)[column_at(j)] <= 'F') && !('A' <= hex_line(
            chunk,
            16,
        )[column_at(j) + 1] <= 'F'),
        j >= chunk.len() ==> hex_line(chunk, 16)[column_at(j)] == ' ' && hex_line(
            chunk,
            16,
        )[column_at(j) + 1] == ' ',
        hex_line(chunk, 16)[column_at(j) + 2] == ' ',
        hex_line(chunk, 16)[24] == ' ',
{
    lemma_hex_line_len(chunk, 16);
    lemma_hex_line_keeps(chunk, j, 16);
    lemma_hex_line_keeps(chunk, 7, 16);
    let line = hex_line(chunk, 16);
    let at = column_at(j);
    let column = line.subrange(at, at + 3);
    assert(line[at] == column[0] && line[at + 1] == column[1] && line[at + 2] == column[2]);
    if j < chunk.len() {
        text::law_a_digit_is_worth_itself((chunk[j] / 16) as nat);
        text::law_a_digit_is_worth_itself((chunk[j] % 16) as nat);
    }
}

/// Two different rows of bytes never give the same text.
pub proof fn law_different_bytes_look_different(a: Seq<u8>, b: Seq<u8>)
    requires
        a.len() <= 16,
        b.len() <= 16,
        hex_line(a, 16) == hex_line(b, 16),
    ensures
        a == b,
{
    if a.len() < b.len() {
        law_a_row_of_bytes_reads_back(a, a.len() as int);
        law_a_row_of_bytes_reads_back(b, a.len() as int);
    }
    if b.len() < a.len() {
        law_a_row_of_bytes_reads_back(a, b.len() as int);
        law_a_row_of_bytes_reads_back(b, b.len() as int);
    }
    assert forall|j: int| 0 <= j < a.len() implies a[j] == b[j] by {
        law_a_row_of_bytes_reads_back(a, j);
        law_a_row_of_bytes_reads_back(b, j);
    }
    assert(a =~= b);
}

/// Behind the bytes stands one character for each: the byte itself where ASCII has a
/// printable character for it, and a dot where it has none.
pub proof fn law_a_byte_is_shown_as_its_character(chunk: Seq<u8>, j: int)
    requires
        0 <= j < chunk.len(),
    ensures
        ascii_line(chunk).len() == chunk.len(),
        ' ' <= ascii_line(chunk)[j] <= '~',
        32 <= chunk[j] < 127 ==> ascii_line(chunk)[j] as int == chunk[j],
        chunk[j] < 32 || chunk[j] >= 127 ==> ascii_line(chunk)[j] == '.',
{
}

/// A dump shows every byte once, and in order: byte `i` stands in row `i / 16`, and is
/// the one at `i % 16` there; every row but the last is full.
pub proof fn law_a_dump_shows_every_byte(data: Seq<u8>, row: int, j: int)
    requires
        0 <= row,
        0 <= j < 16,
        16 * row + j < data.len(),
    ensures
        j < row_bytes(data, row).len() <= 16,
        row_bytes(data, row)[j] == data[16 * row + j],
        16 * row + 16 <= data.len() ==> row_bytes(data, row).len() == 16,
        data.len() < 16 * row + 16 ==> 16 * row + row_bytes(data, row).len() == data.len(),
{
}

/// What is right-aligned ends where its column does, and is whole; only blanks stand
/// before it.
pub proof fn law_right_aligned_text_ends_together(s: Seq<char>, n: int)
    ensures
        s.len() <= n ==> right_aligned(s, n).len() == n,
        s.len() >= n ==> right_aligned(s, n) == s,
        right_aligned(s, n).len() >= s.len(),
        right_aligned(s, n).skip(right_aligned(s, n).len() - s.len()) == s,
        forall|i: int|
            0 <= i < right_aligned(s, n).len() - s.len() ==> #[trigger] right_aligned(s, n)[i] == ' ',
{
    let r = right_aligned(s, n);
    assert(r.skip(r.len() - s.len()) =~= s);
    if s.len() >= n {
        assert(r =~= s);
    }
}

/// A directory is told from a file by the slash behind its name, and by nothing else.
pub proof fn law_a_directory_has_a_slash(entry: ListEntry)
    ensures
        entry_text(entry).len() == entry.name@.len() + (if entry.is_dir {
            1int
        } else {
            0
        }),
        entry_text(entry).take(entry.name@.len() as int) == entry.name@,
        entry.is_dir ==> entry_text(entry).last() == '/',
{
    reveal_strlit("/");
    assert(entry_text(entry).take(entry.name@.len() as int) =~= entry.name@);
}

/// The list says something in place of rows exactly where it has none to show: where it
/// failed, where there are no entries, or where the search leaves none. A failure is
/// told before anything else, and an empty directory is told from one that is still
/// being listed.
pub proof fn law_a_list_without_rows_says_why(
    failed: bool,
    loading: bool,
    entries: nat,
    visible: nat,
    search: Seq<char>,
)
    ensures
        listing_text(failed, loading, entries, visible, search) is None <==> !failed && entries > 0
            && visible > 0,
        listing_text(true, loading, entries, visible, search) == Some("cannot list this directory"@),
        !failed && entries == 0 ==> listing_text(failed, loading, entries, visible, search) == (
        if loading {
            Some("listing…"@)
        } else {
            Some("empty"@)
        }),
        !failed && entries > 0 && visible == 0 ==> text::starts(
            listing_text(failed, loading, entries, visible, search)->0,
            "nothing matches "@,
        ),
{
    let t = "nothing matches "@ + text::debug_text(search);
    assert(t.subrange(0, "nothing matches "@.len() as int) =~= "nothing matches "@);
}

/// What was dropped is the first path there is: everything before it has none. It is
/// none only where nothing has one.
pub proof fn law_the_first_drop_is_opened(files: Seq<Option<FilePath>>)
    ensures
        match first_some(files) {
            Some(b) => exists|i: int|
                {
                    &&& 0 <= i < files.len()
                    &&& (#[trigger] files[i]) is Some
                    &&& files[i]->0@ == b
                    &&& forall|j: int| 0 <= j < i ==> (#[trigger] files[j]) is None
                },
            None => forall|j: int| 0 <= j < files.len() ==> (#[trigger] files[j]) is None,
        },
    decreases files.len(),
{
    if files.len() > 0 && files[0] is None {
        let rest = files.drop_first();
        law_the_first_drop_is_opened(rest);
        if first_some(rest) is Some {
            let i = choose|i: int|
                {
                    &&& 0 <= i < rest.len()
                    &&& (#[trigger] rest[i]) is Some
                    &&& rest[i]->0@ == first_some(rest)->0
                    &&& forall|j: int| 0 <= j < i ==> (#[trigger] rest[j]) is None
                };
            assert(files[i + 1] == rest[i]);
            assert forall|j: int| 0 <= j < i + 1 implies (#[trigger] files[j]) is None by {
                if j > 0 {
                    assert(rest[j - 1] == files[j]);
                }
            }
        } else {
            assert forall|j: int| 0 <= j < files.len() implies (#[trigger] files[j]) is None by {
                if j > 0 {
                    assert(rest[j - 1] == files[j]);
                }
            }
        }
    }
}

/// A place is offered exactly where its directory is there, under its own name and
/// where it is: the directory of that name in the home directory.
pub proof fn law_a_place_is_offered_where_it_is_there(home: PathView, present: Seq<bool>, n: nat, i: int)
    requires
        n <= 4,
        present.len() == 4,
        0 <= i < 4,
    ensures
        ({
            let all = ["Documents"@, "Downloads"@, "Pictures"@, "Desktop"@];
            let place = (all@[i], path::joined(home, vstd::utf8::encode_utf8(all@[i])));
            i < n && present[i] ==> places_below(home, present, n).contains(place)
        }),
        (forall|k: int| 0 <= k < 4 ==> !#[trigger] present[k]) ==> places_below(home, present, n)
            == Seq::<PlaceView>::empty(),
        (forall|k: int| 0 <= k < 4 ==> #[trigger] present[k]) ==> places_below(home, present, n).len()
            == n,
    decreases n,
{
    let all = ["Documents"@, "Downloads"@, "Pictures"@, "Desktop"@];
    assert(all@[i] == place_name(i));
    if n > 0 {
        let m = (n - 1) as nat;
        law_a_place_is_offered_where_it_is_there(home, present, m, i);
        let place = (all@[i], path::joined(home, vstd::utf8::encode_utf8(all@[i])));
        let before = places_below(home, present, m);
        let after = places_below(home, present, n);
        if i < m && present[i] {
            let k = choose|k: int| 0 <= k < before.len() && before[k] == place;
            assert(after[k] == place);
        } else if i == m && present[i] {
            assert(after.last() == place);
        }
    }
}

/// A file is shown by its own name, without the directory it is in; what has no name of
/// its own is shown whole.
pub proof fn law_a_file_is_shown_by_its_name(dir: PathView, name: Seq<u8>)
    requires
        dir.platform == crate::config::Platform::Unix,
        name.len() > 0,
        !name.contains(0x2fu8),
        name != seq![0x2eu8],
        name != seq![0x2eu8, 0x2eu8],
    ensures
        shown_name(path::joined(dir, name)) == text::lossy_text(name),
        title_text(path::joined(dir, name)) == "sekio — "@ + text::lossy_text(name),
        path::names(dir).len() == 0 ==> shown_name(dir) == text::lossy_text(dir.bytes),
{
    crate::path_laws::law_a_joined_name_is_the_file_name(dir, name);
}

/// What the line at the bottom says of a picture: its format and its size as it is in the
/// file, how far it is enlarged where it is, and then every fact there is about it, in
/// order.
pub proof fn law_the_line_below_a_picture(content: PreviewContent, truncated: bool, zoom: Option<Seq<char>>, i: int)
    requires
        content is Image,
        0 <= i < content->Image_fields@.len(),
    ensures
        ({
            let said = footer_texts(content, truncated, zoom);
            let fields = content->Image_fields@;
            let head = if zoom is Some {
                2int
            } else {
                1
            };
            &&& said.len() == head + fields.len()
            &&& said[0] == content->Image_format@ + " · "@ + text::decimal(
                content->original_width as nat,
            ) + "×"@ + text::decimal(content->original_height as nat)
            &&& zoom is Some ==> said[1] == zoom->0
            &&& said[head + i] == fields[i].key@ + ": "@ + fields[i].value@
        }),
{
}

/// What the line at the bottom says of a text, a listing, facts or bytes: how many there
/// are of them, and of which kind.
pub proof fn law_the_line_below_the_rest(content: PreviewContent, truncated: bool, zoom: Option<Seq<char>>)
    ensures
        match content {
            PreviewContent::Text { lines, language } => footer_texts(content, truncated, zoom)
                == seq![language@ + " · "@ + text::decimal(lines@.len()) + " lines"@],
            PreviewContent::Listing { entries } => footer_texts(content, truncated, zoom) == seq![
                text::decimal(entries@.len()) + " entries"@,
            ],
            PreviewContent::Metadata { fields, .. } => footer_texts(content, truncated, zoom)
                == seq![text::decimal(fields@.len()) + " fields"@],
            PreviewContent::HexDump { file_size, mime, .. } => {
                let size = state::size_text(file_size as nat);
                &&& mime is Some ==> footer_texts(content, truncated, zoom) == seq![
                    mime->0@ + " · "@ + size,
                ]
                &&& mime is None ==> footer_texts(content, truncated, zoom) == seq![
                    "binary"@ + " · "@ + size,
                ]
            },
            PreviewContent::Table { columns, rows, total_rows, total_cols, .. } => footer_texts(
                content,
                truncated,
                zoom,
            ) == seq![
                table::size_line(
                    rows@.len(),
                    columns@.len(),
                    total_rows as nat,
                    total_cols as nat,
                    truncated,
                ),
            ],
            _ => true,
        },
{
}

/// A row of the list of recent files has the name, the whole path, and the directory the
/// file is in where it is in one.
pub proof fn law_a_recent_file_has_its_row(row: RecentRow, b: PathView, home: Option<PathView>)
    requires
        row_of(row, b, home),
    ensures
        row.name@ == shown_name(b),
        row.full@ == text::lossy_text(b.bytes),
        row.folder is Some <==> path::names(b).len() > 0,
        row.folder is Some ==> row.folder->0@ == browser::fitted(
            browser::homely(path::parent_of(b)->0, home),
        ),
{
    crate::path_laws::law_the_parent_lacks_the_last_name(b);
}

/// The directories below home, in the order in which they are offered.
pub proof fn law_places_have_their_names()
    ensures
        place_name(0) == "Documents"@,
        place_name(1) == "Downloads"@,
        place_name(2) == "Pictures"@,
        place_name(3) == "Desktop"@,
{
}

} // verus!
