//! What a preview holds: the data that is handed to the window to paint.
use vstd::prelude::*;

verus! {

/// How many lines of text a preview holds where nothing says otherwise.
pub const DEFAULT_LINES: usize = 500;

/// What a preview is limited to.
#[derive(Debug, Clone, Copy, PartialEq, Eq, Structural)]
pub struct PreviewOptions {
    /// How many lines of text it holds at most.
    pub max_lines: usize,
    /// How much of a file is read at most, in bytes; `None` leaves that to the reader.
    pub max_bytes: Option<u64>,
}

impl Default for PreviewOptions {
    fn default() -> (r: PreviewOptions)
        ensures
            r.max_lines == DEFAULT_LINES,
            r.max_bytes is None,
    {
        PreviewOptions { max_lines: DEFAULT_LINES, max_bytes: None }
    }
}

/// One row of a directory listing.
#[derive(Debug)]
pub struct ListEntry {
    /// The name, without the directory it is in.
    pub name: String,
    /// Whether it is a directory itself.
    pub is_dir: bool,
    /// Its size in bytes, where that is known.
    pub size: Option<u64>,
}

/// What a table cell holds.
#[derive(Debug, Clone, Copy, PartialEq, Eq, Structural)]
pub enum CellKind {
    Text,
    Number,
    Bool,
    Date,
    Error,
}

/// One cell of a table.
#[derive(Debug)]
pub struct TableCell {
    /// The whole text, however long.
    pub text: String,
    /// What it holds.
    pub kind: CellKind,
}

/// One row of a table.
#[derive(Debug)]
pub struct TableRow {
    /// The name of the row.
    pub label: String,
    /// The cells; a row may be shorter than the list of columns.
    pub cells: Vec<TableCell>,
}

/// A stretch of text in one style.
#[derive(Debug)]
pub struct Span {
    /// The text.
    pub text: String,
    /// Its colour, where it has one.
    pub fg: Option<(u8, u8, u8)>,
    /// Whether it is bold.
    pub bold: bool,
    /// Whether it is italic.
    pub italic: bool,
}

/// A line of styled text.
#[derive(Debug)]
pub struct StyledLine {
    /// The stretches, in order.
    pub spans: Vec<Span>,
}

/// One fact about a file.
#[derive(Debug)]
pub struct MetaField {
    /// What the fact is about.
    pub key: String,
    /// What it says.
    pub value: String,
}

/// What a preview shows.
#[derive(Debug)]
pub enum PreviewContent {
    /// Lines of text, in a language.
    Text { lines: Vec<StyledLine>, language: String },
    /// A sheet of cells.
    Table {
        columns: Vec<String>,
        rows: Vec<TableRow>,
        sheets: Vec<String>,
        active_sheet: usize,
        total_rows: u64,
        total_cols: u64,
    },
    /// A picture: its size as decoded, and its size in the file, which is 0 where
    /// it is not known.
    Image {
        width: u32,
        height: u32,
        original_width: u32,
        original_height: u32,
        format: String,
        fields: Vec<MetaField>,
    },
    /// What is in a directory or an archive.
    Listing { entries: Vec<ListEntry> },
    /// What is known of a file, and whether there is a picture of it.
    Metadata { fields: Vec<MetaField>, thumbnail: bool },
    /// Bytes, of a file of a size and perhaps a type.
    HexDump { data: Vec<u8>, file_size: u64, mime: Option<String> },
}

} // verus!
