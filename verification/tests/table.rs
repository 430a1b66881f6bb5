use sekio_gui::content::{CellKind, TableCell, TableRow};
use sekio_gui::table::{
    chosen_sheet, flush_right, more_sheets, painted_cells, row_at, sheet_labels, widest_cells,
    widest_label, Table, MAX_SHEETS, SAMPLES,
};

fn cell(text: &str) -> TableCell {
    TableCell { text: text.to_owned(), kind: CellKind::Text }
}

fn row(label: &str, cells: &[&str]) -> TableRow {
    TableRow { label: label.to_owned(), cells: cells.iter().map(|text| cell(text)).collect() }
}

fn table<'a>(columns: &'a [String], rows: &'a [TableRow]) -> Table<'a> {
    Table {
        columns,
        rows,
        sheets: &[],
        active_sheet: 0,
        total_rows: rows.len() as u64,
        total_cols: columns.len() as u64,
    }
}

#[test]
fn the_widest_cells_of_a_column_come_back_longest_first() {
    let rows = vec![row("1", &["a", "zzzz"]), row("2", &["aaa", ""]), row("3", &["aa", "zz"])];
    assert_eq!(widest_cells(&rows, 0), vec!["aaa", "aa", "a"]);
    assert_eq!(widest_cells(&rows, 1), vec!["zzzz", "zz"]);
    assert!(widest_cells(&rows, 9).is_empty());
}

#[test]
fn only_a_few_cells_per_column_are_ever_measured() {
    let rows: Vec<TableRow> = (0..500)
        .map(|i| row(&i.to_string(), &["x".repeat(i % 40 + 1).as_str()]))
        .collect();
    assert_eq!(widest_cells(&rows, 0).len(), SAMPLES);
    assert_eq!(widest_cells(&rows, 0)[0].chars().count(), 40);
}

#[test]
fn of_cells_as_long_the_first_is_measured_first() {
    let rows = vec![row("1", &["bb"]), row("2", &["aa"]), row("3", &["ccc"])];
    assert_eq!(widest_cells(&rows, 0), vec!["ccc", "bb", "aa"]);
}

#[test]
fn a_row_shorter_than_the_column_list_is_survivable() {
    let columns = vec!["A".to_owned(), "B".to_owned(), "C".to_owned()];
    let rows = vec![row("1", &["only one"])];
    let view = table(&columns, &rows);
    assert_eq!(view.footer(false), "1 rows × 3 columns");
}

#[test]
fn the_footer_says_how_much_of_the_sheet_is_on_screen() {
    let columns = vec!["A".to_owned(), "B".to_owned()];
    let rows = vec![row("1", &["x", "y"])];
    let mut view = table(&columns, &rows);

    assert_eq!(view.footer(false), "1 rows × 2 columns");
    assert_eq!(view.footer(true), "showing first 1 rows × 2 columns — more follow");

    view.total_rows = 4000;
    view.total_cols = 90;
    assert_eq!(view.footer(false), "4000 rows × 90 columns — showing 1 × 2");
    view.total_rows = 0;
    view.total_cols = 0;
    assert_eq!(view.footer(false), "1 rows × 2 columns");
}

#[test]
fn the_sheet_on_screen_is_in_brackets() {
    let sheets = vec!["One".to_owned(), "T\nwo".to_owned()];
    let labels = sheet_labels(&sheets, 1);
    assert_eq!(labels.len(), 2);
    assert_eq!(labels[0].text, "One");
    assert!(!labels[0].active);
    assert_eq!(labels[1].text, "[T wo]");
    assert!(labels[1].active);
    assert_eq!(chosen_sheet(0, 1), Some(0));
    assert_eq!(chosen_sheet(1, 1), None);
}

#[test]
fn a_long_list_of_sheets_is_cut() {
    let sheets: Vec<String> = (0..30).map(|i| format!("s{i}")).collect();
    assert_eq!(sheet_labels(&sheets, 0).len(), MAX_SHEETS);
    assert_eq!(more_sheets(30), Some("+6 more".to_owned()));
    assert_eq!(more_sheets(24), None);
}

#[test]
fn only_cells_that_hold_something_are_painted() {
    let cell = |text: &str| TableCell { text: text.to_owned(), kind: CellKind::Text };
    let row = TableRow {
        label: "1".to_owned(),
        cells: vec![cell("a"), cell(""), cell("c"), cell("d")],
    };
    assert_eq!(painted_cells(&row, 3), vec![0, 2]);
    assert_eq!(painted_cells(&row, 9), vec![0, 2, 3], "a row may be short");
    assert!(painted_cells(&row, 0).is_empty());
    assert_eq!(row_at(0, 2), None, "the first line has the names of the columns");
    assert_eq!(row_at(1, 2), Some(0));
    assert_eq!(row_at(2, 2), Some(1));
    assert_eq!(row_at(3, 2), None);
    assert!(flush_right(CellKind::Number) && flush_right(CellKind::Date));
    assert!(!flush_right(CellKind::Text) && !flush_right(CellKind::Bool));
    assert!(!flush_right(CellKind::Error));
}

#[test]
fn the_margin_fits_the_longest_name() {
    let named = |label: &str| TableRow { label: label.to_owned(), cells: Vec::new() };
    assert_eq!(widest_label(&[]), None);
    assert_eq!(widest_label(&[named("é1"), named("22"), named("3")]), Some(1));
    assert_eq!(widest_label(&[named("100"), named("99")]), Some(0));
}
