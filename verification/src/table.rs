//! A sheet of cells: what is said of its size, which cells decide how wide a
//! column is, and the list of its sheets.
use vstd::prelude::*;

use crate::content::{CellKind, TableCell, TableRow};
use crate::style::{self, one_line};
use crate::text::{self, chars_of, push_decimal, push_str, string_of};

verus! {

/// How many cells of a column are measured.
pub const SAMPLES: usize = 4;

/// How many sheets are listed.
pub const MAX_SHEETS: usize = 24;

/// A sheet, as it is previewed.
#[derive(Debug)]
pub struct Table<'a> {
    pub columns: &'a [String],
    pub rows: &'a [TableRow],
    pub sheets: &'a [String],
    pub active_sheet: usize,
    pub total_rows: u64,
    pub total_cols: u64,
}

/// The larger of two numbers.
pub open spec fn larger(a: nat, b: nat) -> nat {
    if a >= b {
        a
    } else {
        b
    }
}

/// What is said of a sheet of `total_rows` and `total_cols`, of which `rows` and
/// `cols` are on screen. A sheet is never said to be smaller than what is on
/// screen.
pub open spec fn size_line(
    rows: nat,
    cols: nat,
    total_rows: nat,
    total_cols: nat,
    truncated: bool,
) -> Seq<char> {
    let all_rows = larger(total_rows, rows);
    let all_cols = larger(total_cols, cols);
    if all_rows > rows || all_cols > cols {
        text::decimal(all_rows) + " rows × "@ + text::decimal(all_cols) + " columns — showing "@ + text::decimal(
            rows,
        ) + " × "@ + text::decimal(cols)
    } else if truncated {
        "showing first "@ + text::decimal(rows) + " rows × "@ + text::decimal(cols)
            + " columns — more follow"@
    } else {
        text::decimal(rows) + " rows × "@ + text::decimal(cols) + " columns"@
    }
}

impl<'a> Table<'a> {
    /// The line on the sheet's size, and on what of it is on screen where that is
    /// less. `truncated` is whether there is more without the sheet saying how
    /// much.
    pub fn footer(&self, truncated: bool) -> (r: String)
        ensures
            r@ == size_line(
                self.rows@.len(),
                self.columns@.len(),
                self.total_rows as nat,
                self.total_cols as nat,
                truncated,
            ),
    {
        let rows: u64 = self.rows.len() as u64;
        let cols: u64 = self.columns.len() as u64;
        let all_rows: u64 = if self.total_rows >= rows {
            self.total_rows
        } else {
            rows
        };
        let all_cols: u64 = if self.total_cols >= cols {
            self.total_cols
        } else {
            cols
        };
        let mut out: Vec<char> = Vec::new();
        if all_rows > rows || all_cols > cols {
            push_decimal(&mut out, all_rows);
            push_str(&mut out, " rows × ");
            push_decimal(&mut out, all_cols);
            push_str(&mut out, " columns — showing ");
            push_decimal(&mut out, rows);
            push_str(&mut out, " × ");
            push_decimal(&mut out, cols);
        } else if truncated {
            push_str(&mut out, "showing first ");
            push_decimal(&mut out, rows);
            push_str(&mut out, " rows × ");
            push_decimal(&mut out, cols);
            push_str(&mut out, " columns — more follow");
        } else {
            push_decimal(&mut out, rows);
            push_str(&mut out, " rows × ");
            push_decimal(&mut out, cols);
            push_str(&mut out, " columns");
        }
        assert(out@ =~= size_line(
            self.rows@.len(),
            self.columns@.len(),
            self.total_rows as nat,
            self.total_cols as nat,
            truncated,
        ));
        string_of(out.as_slice())
    }
}

// ---------------------------------------------------------------------------
// Which cells are measured
// ---------------------------------------------------------------------------
/// Where a text of length `len` goes in a list with the longest first: behind all
/// that are as long.
pub open spec fn slot(best: Seq<Seq<char>>, len: nat, i: int) -> int
    decreases best.len() - i,
{
    if i < 0 || i >= best.len() || best[i].len() < len {
        i
    } else {
        slot(best, len, i + 1)
    }
}

/// A list of the longest, with one more text considered.
pub open spec fn considered(best: Seq<Seq<char>>, text: Seq<char>) -> Seq<Seq<char>> {
    let at = slot(best, text.len(), 0);
    if text.len() == 0 || at >= SAMPLES {
        best
    } else {
        let more = best.insert(at, text);
        if more.len() > SAMPLES {
            more.subrange(0, SAMPLES as int)
        } else {
            more
        }
    }
}

/// The longest cells of a column, the longest first. A row that does not reach the
/// column has no cell there.
pub open spec fn widest(rows: Seq<TableRow>, column: int) -> Seq<Seq<char>>
    decreases rows.len(),
{
    if rows.len() == 0 {
        Seq::empty()
    } else {
        let before = widest(rows.drop_last(), column);
        let cells = rows.last().cells@;
        if 0 <= column < cells.len() {
            considered(before, cells[column].text@)
        } else {
            before
        }
    }
}

/// The longest cells of a column, the longest first: the ones that are measured.
pub fn widest_cells(rows: &[TableRow], column: usize) -> (r: Vec<String>)
    ensures
        text::texts(r@) == widest(rows@, column as int),
        r.len() <= SAMPLES,
{
    let mut best: Vec<String> = Vec::new();
    let mut i: usize = 0;
    assert(rows@.subrange(0, 0) =~= Seq::<TableRow>::empty());
    assert(text::texts(best@) =~= widest(rows@.subrange(0, 0), column as int));
    while i < rows.len()
        invariant
            i <= rows.len(),
            best.len() <= SAMPLES,
            text::texts(best@) == widest(rows@.subrange(0, i as int), column as int),
        decreases rows.len() - i,
    {
        let ghost upto = rows@.subrange(0, i + 1);
        assert(upto.drop_last() =~= rows@.subrange(0, i as int));
        if column < rows[i].cells.len() {
            consider(&mut best, rows[i].cells[column].text.as_str());
        }
        i = i + 1;
    }
    assert(rows@.subrange(0, rows@.len() as int) =~= rows@);
    best
}

fn consider(best: &mut Vec<String>, text: &str)
    requires
        old(best).len() <= SAMPLES,
    ensures
        text::texts(final(best)@) == considered(text::texts(old(best)@), text@),
        final(best).len() <= SAMPLES,
{
    let len: usize = chars_of(text).len();
    if len == 0 {
        return;
    }
    let ghost list = text::texts(best@);
    let mut at: usize = 0;
    while at < best.len() && chars_of(best[at].as_str()).len() >= len
        invariant
            at <= best.len(),
            list == text::texts(best@),
            slot(list, len as nat, 0) == slot(list, len as nat, at as int),
        decreases best.len() - at,
    {
        at = at + 1;
    }
    assert(at == slot(list, len as nat, 0));
    if at >= SAMPLES {
        return;
    }
    best.insert(at, text.to_owned());
    assert(text::texts(best@) =~= list.insert(at as int, text@));
    let ghost more = text::texts(best@);
    if best.len() > SAMPLES {
        best.truncate(SAMPLES);
        assert(text::texts(best@) =~= more.subrange(0, SAMPLES as int));
    }
}

// ---------------------------------------------------------------------------
// What is painted where
// ---------------------------------------------------------------------------
/// Whether `i` is the row whose name decides how wide the margin is: no other name
/// is longer, and none behind it is as long.
pub open spec fn has_widest_label(rows: Seq<TableRow>, i: int) -> bool {
    &&& 0 <= i < rows.len()
    &&& forall|k: int|
        0 <= k < rows.len() ==> (#[trigger] rows[k]).label@.len() <= rows[i].label@.len()
    &&& forall|k: int|
        i < k < rows.len() ==> (#[trigger] rows[k]).label@.len() < rows[i].label@.len()
}

/// The row whose name decides how wide the margin is.
pub fn widest_label(rows: &[TableRow]) -> (r: Option<usize>)
    ensures
        match r {
            Some(i) => has_widest_label(rows@, i as int),
            None => rows.len() == 0,
        },
{
    if rows.len() == 0 {
        return None;
    }
    let mut best: usize = 0;
    let mut longest: usize = chars_of(rows[0].label.as_str()).len();
    let mut i: usize = 1;
    while i < rows.len()
        invariant
            best < i <= rows.len(),
            longest == rows@[best as int].label@.len(),
            forall|k: int| 0 <= k < i ==> (#[trigger] rows@[k]).label@.len() <= longest,
            forall|k: int| best < k < i ==> (#[trigger] rows@[k]).label@.len() < longest,
        decreases rows.len() - i,
    {
        let len: usize = chars_of(rows[i].label.as_str()).len();
        if len >= longest {
            best = i;
            longest = len;
        }
        i = i + 1;
    }
    Some(best)
}

/// The row of a sheet of `rows` rows that the line `line` of the grid shows: the
/// first line is that of the column names.
pub fn row_at(line: usize, rows: usize) -> (r: Option<usize>)
    ensures
        r == (if 0 < line <= rows {
            Some((line - 1) as usize)
        } else {
            None
        }),
{
    if 0 < line && line <= rows {
        Some(line - 1)
    } else {
        None
    }
}

/// The cells of a row that are painted, up to the column `n`: those that hold
/// something.
pub open spec fn filled(cells: Seq<TableCell>, n: nat) -> Seq<nat>
    decreases n,
{
    if n == 0 {
        Seq::empty()
    } else {
        let before = filled(cells, (n - 1) as nat);
        if n - 1 < cells.len() && cells[n - 1].text@.len() > 0 {
            before.push((n - 1) as nat)
        } else {
            before
        }
    }
}

/// Places, as numbers.
pub open spec fn places(v: Seq<usize>) -> Seq<nat> {
    Seq::new(v.len(), |i: int| v[i] as nat)
}

/// The cells of `row` that are painted in a grid of `columns` columns: those that
/// hold something. A row may have fewer cells than there are columns, or more.
pub fn painted_cells(row: &TableRow, columns: usize) -> (r: Vec<usize>)
    ensures
        places(r@) == filled(row.cells@, columns as nat),
{
    let mut out: Vec<usize> = Vec::new();
    let mut i: usize = 0;
    assert(places(out@) =~= filled(row.cells@, 0));
    while i < columns
        invariant
            i <= columns,
            places(out@) == filled(row.cells@, i as nat),
        decreases columns - i,
    {
        let ghost before = out@;
        if i < row.cells.len() && chars_of(row.cells[i].text.as_str()).len() > 0 {
            out.push(i);
            assert(places(out@) =~= places(before).push(i as nat));
        }
        i = i + 1;
    }
    out
}

/// Whether a cell stands at the right edge of its column: numbers and dates do, so
/// that they line up.
pub fn flush_right(kind: CellKind) -> (r: bool)
    ensures
        r == (kind == CellKind::Number || kind == CellKind::Date),
{
    match kind {
        CellKind::Number => true,
        CellKind::Date => true,
        _ => false,
    }
}

// ---------------------------------------------------------------------------
// The list of sheets
// ---------------------------------------------------------------------------
/// One sheet in the list.
#[derive(Debug)]
pub struct SheetLabel {
    /// What is written.
    pub text: String,
    /// Whether it is the sheet that is shown.
    pub active: bool,
}

/// What is written for a sheet: its name on one line, in brackets where it is
/// shown.
pub open spec fn sheet_text(name: Seq<char>, active: bool) -> Seq<char> {
    if active {
        "["@ + style::flattened(name) + "]"@
    } else {
        style::flattened(name)
    }
}

/// The list of sheets: the first few, in order.
pub fn sheet_labels(sheets: &[String], active: usize) -> (r: Vec<SheetLabel>)
    ensures
        r.len() == (if sheets.len() < MAX_SHEETS {
            sheets.len()
        } else {
            MAX_SHEETS
        }),
        forall|i: int|
            0 <= i < r.len() ==> (#[trigger] r@[i]).active == (i == active) && r@[i].text@
                == sheet_text(sheets@[i]@, i == active),
{
    let n: usize = if sheets.len() < MAX_SHEETS {
        sheets.len()
    } else {
        MAX_SHEETS
    };
    let mut out: Vec<SheetLabel> = Vec::new();
    let mut i: usize = 0;
    while i < n
        invariant
            i <= n <= sheets.len(),
            out.len() == i,
            forall|k: int|
                0 <= k < i ==> (#[trigger] out@[k]).active == (k == active) && out@[k].text@
                    == sheet_text(sheets@[k]@, k == active),
        decreases n - i,
    {
        let name = one_line(sheets[i].as_str());
        if i == active {
            let mut text = chars_of("[");
            push_str(&mut text, name.as_str());
            push_str(&mut text, "]");
            out.push(SheetLabel { text: string_of(text.as_slice()), active: true });
        } else {
            out.push(SheetLabel { text: name, active: false });
        }
        i = i + 1;
    }
    out
}

/// What is written behind the list where there are more sheets.
pub fn more_sheets(count: usize) -> (r: Option<String>)
    ensures
        r is Some <==> count > MAX_SHEETS,
        r is Some ==> r->0@ == "+"@ + text::decimal((count - MAX_SHEETS) as nat) + " more"@,
{
    if count <= MAX_SHEETS {
        return None;
    }
    let mut out = chars_of("+");
    push_decimal(&mut out, (count - MAX_SHEETS) as u64);
    push_str(&mut out, " more");
    Some(string_of(out.as_slice()))
}

/// The sheet that a click on `index` asks for: the one that is shown is not asked
/// for again.
pub fn chosen_sheet(index: usize, active: usize) -> (r: Option<usize>)
    ensures
        r == (if index == active {
            None
        } else {
            Some(index)
        }),
{
    if index == active {
        None
    } else {
        Some(index)
    }
}

// ---------------------------------------------------------------------------
// Laws
// ---------------------------------------------------------------------------
/// Whether a list has the longest first, and is as short as it must be.
pub open spec fn longest_first(best: Seq<Seq<char>>) -> bool {
    &&& best.len() <= SAMPLES
    &&& forall|i: int, j: int|
        0 <= i <= j < best.len() ==> (#[trigger] best[i]).len() >= (#[trigger] best[j]).len()
    &&& forall|i: int| 0 <= i < best.len() ==> (#[trigger] best[i]).len() > 0
}

proof fn lemma_slot(best: Seq<Seq<char>>, len: nat, i: int)
    requires
        0 <= i <= best.len(),
    ensures
        i <= slot(best, len, i) <= best.len(),
        forall|k: int| i <= k < slot(best, len, i) ==> (#[trigger] best[k]).len() >= len,
        slot(best, len, i) < best.len() ==> best[slot(best, len, i)].len() < len,
    decreases best.len() - i,
{
    if i < best.len() && best[i].len() >= len {
        lemma_slot(best, len, i + 1);
    }
}

proof fn lemma_considered(best: Seq<Seq<char>>, text: Seq<char>)
    requires
        longest_first(best),
    ensures
        longest_first(considered(best, text)),
        covers(considered(best, text), text),
        forall|t: Seq<char>| #[trigger] covers(best, t) ==> covers(considered(best, text), t),
{
    let at = slot(best, text.len(), 0);
    lemma_slot(best, text.len(), 0);
    let after = considered(best, text);
    if text.len() == 0 {
    } else if at >= SAMPLES {
        assert(best[SAMPLES - 1].len() >= text.len());
    } else {
        let more = best.insert(at, text);
        assert(after =~= more.subrange(0, after.len() as int));
        assert forall|i: int| 0 <= i < after.len() implies after[i] == (if i < at {
            best[i]
        } else if i == at {
            text
        } else {
            best[i - 1]
        }) by {}
        assert(after[at] == text);
        assert forall|t: Seq<char>| #[trigger] covers(best, t) implies covers(after, t) by {
            if t.len() > 0 {
                if best.contains(t) {
                    let k = choose|k: int| 0 <= k < best.len() && best[k] == t;
                    if k < at {
                        assert(after[k] == t);
                    } else if k + 1 < after.len() {
                        assert(after[k + 1] == t);
                    } else {
                        assert(after.len() == SAMPLES);
                        assert(best[SAMPLES - 1] == t);
                        assert(after[SAMPLES - 1].len() >= t.len());
                    }
                } else {
                    assert(best.len() == SAMPLES);
                    assert(best[SAMPLES - 1].len() >= t.len());
                    assert(after[SAMPLES - 1].len() >= best[SAMPLES - 1].len());
                }
            }
        }
    }
}

/// Whether a list of the longest accounts for `text`: it is empty, in the list, or
/// no longer than any of a full list.
pub open spec fn covers(best: Seq<Seq<char>>, text: Seq<char>) -> bool {
    ||| text.len() == 0
    ||| best.contains(text)
    ||| best.len() == SAMPLES && best.last().len() >= text.len()
}

/// The cells that are measured are the longest of their column: there are few of
/// them, the longest comes first, and no cell that is left out is longer than any
/// that is measured.
pub proof fn law_the_longest_cells_are_measured(rows: Seq<TableRow>, column: int, row: int)
    requires
        0 <= row < rows.len(),
        0 <= column < rows[row].cells@.len(),
    ensures
        longest_first(widest(rows, column)),
        covers(widest(rows, column), rows[row].cells@[column].text@),
    decreases rows.len(),
{
    lemma_longest_first(rows, column);
    let init = rows.drop_last();
    lemma_longest_first(init, column);
    let before = widest(init, column);
    let cells = rows.last().cells@;
    if 0 <= column < cells.len() {
        lemma_considered(before, cells[column].text@);
    }
    if row < init.len() {
        assert(init[row] == rows[row]);
        law_the_longest_cells_are_measured(init, column, row);
    }
}

proof fn lemma_longest_first(rows: Seq<TableRow>, column: int)
    ensures
        longest_first(widest(rows, column)),
    decreases rows.len(),
{
    if rows.len() > 0 {
        lemma_longest_first(rows.drop_last(), column);
        let cells = rows.last().cells@;
        if 0 <= column < cells.len() {
            lemma_considered(widest(rows.drop_last(), column), cells[column].text@);
        }
    }
}

/// A sheet that says it is smaller than what is on screen is described by what is
/// on screen.
pub proof fn law_a_sheet_is_never_smaller_than_shown(
    rows: nat,
    cols: nat,
    total_rows: nat,
    total_cols: nat,
)
    requires
        total_rows <= rows,
        total_cols <= cols,
    ensures
        size_line(rows, cols, total_rows, total_cols, false) == size_line(
            rows,
            cols,
            rows,
            cols,
            false,
        ),
{
}

/// A cell is painted where it is, at most once, and only where it holds something.
pub proof fn law_only_what_is_there_is_painted(cells: Seq<TableCell>, n: nat, i: nat)
    ensures
        filled(cells, n).contains(i) <==> i < n && i < cells.len() && cells[i as int].text@.len()
            > 0,
        filled(cells, n).no_duplicates(),
    decreases n,
{
    if n > 0 {
        let before = filled(cells, (n - 1) as nat);
        law_only_what_is_there_is_painted(cells, (n - 1) as nat, i);
        law_only_what_is_there_is_painted(cells, (n - 1) as nat, (n - 1) as nat);
        if n - 1 < cells.len() && cells[n - 1].text@.len() > 0 {
            let all = before.push((n - 1) as nat);
            assert(filled(cells, n) == all);
            assert(all[all.len() - 1] == n - 1);
            if before.contains(i) {
                let k = choose|k: int| 0 <= k < before.len() && before[k] == i;
                assert(all[k] == i);
            }
            assert(all.contains((n - 1) as nat));
        }
    }
}

/// Only cells of the column are measured, and only those that hold something.
pub proof fn law_only_cells_of_the_column_are_measured(rows: Seq<TableRow>, column: int, i: int)
    requires
        0 <= i < widest(rows, column).len(),
    ensures
        widest(rows, column)[i].len() > 0,
        exists|row: int|
            0 <= row < rows.len() && 0 <= column < (#[trigger] rows[row]).cells@.len()
                && rows[row].cells@[column].text@ == widest(rows, column)[i],
    decreases rows.len(),
{
    let init = rows.drop_last();
    let before = widest(init, column);
    let cells = rows.last().cells@;
    let after = widest(rows, column);
    lemma_longest_first(rows, column);
    assert(after[i].len() > 0);
    if 0 <= column < cells.len() && after != before {
        let text = cells[column].text@;
        let at = slot(before, text.len(), 0);
        lemma_slot(before, text.len(), 0);
        assert(after[i] == before.insert(at, text)[i]);
        if i == at {
            assert(rows[rows.len() - 1] == rows.last());
        } else {
            let k = if i < at {
                i
            } else {
                i - 1
            };
            law_only_cells_of_the_column_are_measured(init, column, k);
            lemma_row_of(rows, column, before[k]);
        }
    } else {
        law_only_cells_of_the_column_are_measured(init, column, i);
        lemma_row_of(rows, column, before[i]);
    }
}

proof fn lemma_row_of(rows: Seq<TableRow>, column: int, text: Seq<char>)
    requires
        rows.len() > 0,
        exists|row: int|
            0 <= row < rows.drop_last().len() && 0 <= column < (
            #[trigger] rows.drop_last()[row]).cells@.len()
                && rows.drop_last()[row].cells@[column].text@ == text,
    ensures
        exists|row: int|
            0 <= row < rows.len() && 0 <= column < (#[trigger] rows[row]).cells@.len()
                && rows[row].cells@[column].text@ == text,
{
    let init = rows.drop_last();
    let row = choose|row: int|
        0 <= row < init.len() && 0 <= column < (#[trigger] init[row]).cells@.len()
            && init[row].cells@[column].text@ == text;
    assert(rows[row] == init[row]);
}

/// The cells of a row are painted from left to right.
pub proof fn law_cells_are_painted_from_left_to_right(cells: Seq<TableCell>, n: nat, i: int, j: int)
    requires
        0 <= i < j < filled(cells, n).len(),
    ensures
        filled(cells, n)[i] < filled(cells, n)[j] < n,
    decreases n,
{
    if n > 0 {
        let m = (n - 1) as nat;
        let before = filled(cells, m);
        if j < before.len() {
            law_cells_are_painted_from_left_to_right(cells, m, i, j);
        } else {
            law_only_what_is_there_is_painted(cells, m, before[i]);
            assert(before.contains(before[i]));
        }
    }
}

/// A sheet that is shown whole is said to be as large as it is; one of which more is
/// there is said to be as large as it is, and how much of it is shown; and one that
/// does not say how much more there is is said to have more.
pub proof fn law_a_sheet_says_how_large_it_is(
    rows: nat,
    cols: nat,
    total_rows: nat,
    total_cols: nat,
    truncated: bool,
)
    ensures
        total_rows > rows && total_cols >= cols || total_rows >= rows && total_cols > cols
            ==> size_line(rows, cols, total_rows, total_cols, truncated) == text::decimal(
            total_rows,
        ) + " rows × "@ + text::decimal(total_cols) + " columns — showing "@ + text::decimal(rows)
            + " × "@ + text::decimal(cols),
        total_rows > rows && total_cols < cols ==> size_line(
            rows,
            cols,
            total_rows,
            total_cols,
            truncated,
        ) == size_line(rows, cols, total_rows, cols, truncated),
        total_rows < rows && total_cols > cols ==> size_line(
            rows,
            cols,
            total_rows,
            total_cols,
            truncated,
        ) == size_line(rows, cols, rows, total_cols, truncated),
        total_rows <= rows && total_cols <= cols && truncated ==> size_line(
            rows,
            cols,
            total_rows,
            total_cols,
            truncated,
        ) == "showing first "@ + text::decimal(rows) + " rows × "@ + text::decimal(cols)
            + " columns — more follow"@,
        total_rows <= rows && total_cols <= cols && !truncated ==> size_line(
            rows,
            cols,
            total_rows,
            total_cols,
            truncated,
        ) == text::decimal(rows) + " rows × "@ + text::decimal(cols) + " columns"@,
{
}

/// A sheet is written by its name, on one line; the one that is shown stands in
/// brackets.
pub proof fn law_the_sheet_that_is_shown_stands_in_brackets(name: Seq<char>)
    ensures
        sheet_text(name, false) == style::flattened(name),
        sheet_text(name, true).len() == name.len() + 2,
        sheet_text(name, true)[0] == '[',
        sheet_text(name, true).last() == ']',
        sheet_text(name, true).subrange(1, name.len() as int + 1) == style::flattened(name),
{
    reveal_strlit("[");
    reveal_strlit("]");
    assert(sheet_text(name, true).subrange(1, name.len() as int + 1) =~= style::flattened(name));
}

/// The longest cell of a column is measured first: no cell of the column is longer.
pub proof fn law_the_longest_cell_comes_first(rows: Seq<TableRow>, column: int, row: int)
    requires
        0 <= row < rows.len(),
        0 <= column < rows[row].cells@.len(),
        rows[row].cells@[column].text@.len() > 0,
    ensures
        widest(rows, column).len() > 0,
        widest(rows, column)[0].len() >= rows[row].cells@[column].text@.len(),
{
    law_the_longest_cells_are_measured(rows, column, row);
    let best = widest(rows, column);
    let text = rows[row].cells@[column].text@;
    if best.contains(text) {
        let k = choose|k: int| 0 <= k < best.len() && best[k] == text;
        assert(best[0].len() >= best[k].len());
    } else {
        assert(best[0].len() >= best[best.len() - 1].len());
    }
}

} // verus!
