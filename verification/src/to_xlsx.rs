//! The `to xlsx` command: which sheets an input makes, and the conversion of
//! those sheets into a workbook, step by step.

use vstd::prelude::*;
use vstd::pervasive::arbitrary;
use vstd::string::StringExecFns;
use rust_xlsxwriter::{Workbook, Worksheet};

use crate::model::{error_view, ErrorView, LabeledError, Span, Value, ValueKind};
use crate::sheet::{
    agree_but_floats, before, columns_fitted, lemma_any_date_marks_its_column, cell_fails, content_but_floats, date_column_off_grid, date_in_stretch,
    fill_cells, filled, finish_sheet, float_bits, headers_fit, holds_content, is_failure, is_float_cell,
    is_float_position, lemma_fill_agrees, lemma_filled_step, lemma_finished_holds_content,
    lemma_fresh_sheet_content, lemma_headers_content, lemma_stretches_join, lemma_table_titles, names_of,
    no_float_in_stretch, planned_value, record_get, shape_error, sheet_columns, sheet_shape, stretch_fits,
    table_allowed, table_range, titles_clash, too_many_rows, with_headers, write_headers, FillStop,
    MAX_COLUMNS, Position, SheetShape,
};
use crate::sheet_names::{
    distinct_up_to, duplicate_error, folded_names, name_error, name_sheet, reject_duplicate_sheet_names,
};
use crate::xlsx::{
    error_text, new_workbook, new_worksheet, push_worksheet, save_to_buffer, sheet_autofiltered, sheet_cells,
    column_widths, sizes_by_default, width_pixels,
    sheet_tables, sheet_title, workbook_sheets, lone_sheet, names_reused, save_refused, str_lowercase,
    xlsx_sheets, SheetCell, SheetEntry, COL_LIMIT, ROW_LIMIT,
};

verus! {

/// The command that turns a table, or a record of tables, into an xlsx workbook.
pub struct ToXlsx;

impl ToXlsx {
    pub fn name(&self) -> (r: &'static str)
        ensures
            r@ == "to xlsx"@,
    {
        "to xlsx"
    }

    pub fn description(&self) -> (r: &'static str)
        ensures
            r@ == "Convert table data to Excel (.xlsx) format"@,
    {
        "Convert table data to Excel (.xlsx) format"
    }

    pub fn extra_description(&self) -> (r: &'static str)
        ensures
            r@ == "Output is an Excel Table with auto-filter, banded rows, and autofit by default. Use --raw for plain cells.\n\nNote: `save` invokes `to xlsx` automatically based on the file extension, so `ls | save files.xlsx` works directly. `ls | to xlsx | save files.xlsx` also works: `save` writes binary as it is."@,
    {
        "Output is an Excel Table with auto-filter, banded rows, and autofit by default. Use --raw for plain cells.\n\nNote: `save` invokes `to xlsx` automatically based on the file extension, so `ls | save files.xlsx` works directly. `ls | to xlsx | save files.xlsx` also works: `save` writes binary as it is."
    }

    /// The `--raw` switch: its name, its description and its short form.
    pub fn raw_switch(&self) -> (r: (&'static str, &'static str, char))
        ensures
            r.0@ == "raw"@,
            r.1@ == "Write plain cells instead of an Excel Table"@,
            r.2 == 'r',
    {
        ("raw", "Write plain cells instead of an Excel Table", 'r')
    }

    /// The command's examples, each a description and the command line.
    pub fn examples(&self) -> (r: Vec<(&'static str, &'static str)>)
        ensures
            r@.len() == 4,
            r@[0].0@ == "Save a table to an xlsx file"@,
            r@[0].1@ == "ls | save files.xlsx"@,
            r@[1].0@ == "Explicit conversion to xlsx binary"@,
            r@[1].1@ == "ls | to xlsx"@,
            r@[2].0@ == "Multi-sheet workbook"@,
            r@[2].1@ == "{ Users: [[name age]; [Alice 30]], Orders: [[item qty]; [Widget 5]] } | save report.xlsx"@,
            r@[3].0@ == "Plain cells without Excel Table formatting"@,
            r@[3].1@ == "ls | to xlsx --raw | save files.xlsx"@,
    {
        vec![
            ("Save a table to an xlsx file", "ls | save files.xlsx"),
            ("Explicit conversion to xlsx binary", "ls | to xlsx"),
            (
                "Multi-sheet workbook",
                "{ Users: [[name age]; [Alice 30]], Orders: [[item qty]; [Widget 5]] } | save report.xlsx",
            ),
            ("Plain cells without Excel Table formatting", "ls | to xlsx --raw | save files.xlsx"),
        ]
    }

    pub fn search_terms(&self) -> (r: Vec<&'static str>)
        ensures
            r@.len() == 4,
            r@[0]@ == "excel"@,
            r@[1]@ == "spreadsheet"@,
            r@[2]@ == "xlsx"@,
            r@[3]@ == "workbook"@,
    {
        vec!["excel", "spreadsheet", "xlsx", "workbook"]
    }
}

/// The error for an input that is neither a table nor a record.
pub open spec fn input_error(input: Value) -> ErrorView {
    error_view("Expected table or record of tables"@, "got "@ + input.type_desc@, input.span, None)
}

/// The sheets an input makes: a table is one sheet named `Sheet1`; a record
/// of tables gives one sheet per column, in order, named by the column.
pub fn sheets_from_input(input: Value) -> (r: Result<Vec<(String, Value)>, LabeledError>)
    ensures
        match input.kind {
            ValueKind::List(_) => r matches Ok(sheets) && sheets@.len() == 1 && sheets@[0].0@ == "Sheet1"@
                && sheets@[0].1 == input,
            ValueKind::Record(cols) => r matches Ok(sheets) && sheets@ == cols@,
            _ => r matches Err(e) && e@ == input_error(input),
        },
{
    let is_list = match &input.kind {
        ValueKind::List(_) => true,
        _ => false,
    };
    if is_list {
        let name = "Sheet1".to_owned();
        let mut sheets: Vec<(String, Value)> = Vec::new();
        sheets.push((name, input));
        return Ok(sheets);
    }
    match input.kind {
        ValueKind::Record(cols) => Ok(cols),
        _ => {
            let mut label = "got ".to_owned();
            label.append(input.type_desc.as_str());
            Err(LabeledError::new("Expected table or record of tables".to_owned(), label, input.span))
        },
    }
}

/// Why sheet `k` cannot be written, if it cannot: its value is no table of
/// records with at most `MAX_COLUMNS` columns, or its name breaks a rule.
pub open spec fn check_error(sheets: Seq<(String, Value)>, k: int, span: Span) -> Option<ErrorView> {
    match shape_error(sheets[k].1, span) {
        Some(e) => Some(e),
        None => name_error(sheets[k].0@, span),
    }
}

/// Whether a date stands in a column of a table's body that lies beyond the grid.
pub open spec fn date_beyond_grid(records: Seq<Value>, names: Seq<Seq<char>>) -> bool {
    exists|c: int|
        0 <= c < names.len() && c >= COL_LIMIT && #[trigger] date_in_stretch(
            records,
            names,
            0,
            0,
            records.len() as int,
            0,
            c,
        )
}

/// Whether a table with rows can be made an Excel Table: its rows and
/// columns lie inside the grid, with a row for the header, and the names
/// the Table gives its columns do not differ only in case.
pub open spec fn table_made(records: Seq<Value>) -> bool {
    &&& records.len() < ROW_LIMIT
    &&& 0 < sheet_columns(records).len() <= COL_LIMIT
    &&& !titles_clash(sheet_columns(records))
}

/// Whether every write of a sheet that this library decides succeeds: its
/// header row fits, its rows have numbers, every cell it writes fits, no
/// date column lies beyond the grid; and, for a Table, it can be made.
pub open spec fn sheet_writable(value: Value, raw: bool) -> bool {
    match value.kind {
        ValueKind::List(records) => records@.len() > 0 ==> {
            &&& headers_fit(sheet_columns(records@))
            &&& records@.len() <= u32::MAX
            &&& stretch_fits(records@, sheet_columns(records@), 0, 0, records@.len() as int, 0)
            &&& !date_beyond_grid(records@, sheet_columns(records@))
            &&& !raw ==> table_made(records@)
        },
        _ => true,
    }
}

/// Whether an error is the one that writing a sheet's table fails with:
/// the first failure in the order of writing. The header row, if a name does
/// not fit; else the first cell, row by row, whose value does not fit, at
/// that value; else more rows than row numbers; else, for a Table, one that
/// cannot be made; else a date column beyond the grid.
pub open spec fn sheet_failure(value: Value, raw: bool, span: Span, e: ErrorView) -> bool {
    match value.kind {
        ValueKind::List(records) => {
            let names = sheet_columns(records@);
            if records@.len() == 0 {
                false
            } else if !headers_fit(names) {
                is_failure(e, "Failed to write header"@, span)
            } else if exists|r: int, c: int|
                #![trigger cell_fails(records@, names, r, c)]
                cell_fails(records@, names, r, c) && stretch_fits(records@, names, 0, 0, r, c) {
                exists|r: int, c: int|
                    #![trigger cell_fails(records@, names, r, c)]
                    {
                        &&& cell_fails(records@, names, r, c)
                        &&& stretch_fits(records@, names, 0, 0, r, c)
                        &&& is_failure(e, "Failed to write cell"@, planned_value(records@, names, r, c).unwrap().span)
                    }
            } else if records@.len() > u32::MAX {
                e == too_many_rows(span)
            } else if !raw && !table_made(records@) {
                is_failure(e, "Failed to add table"@, span)
            } else {
                date_beyond_grid(records@, names) && is_failure(e, "Failed to set column width"@, span)
            }
        },
        _ => false,
    }
}

/// Whether the first `n` sheets pass every check and every write this
/// library decides.
pub open spec fn sheets_pass(sheets: Seq<(String, Value)>, raw: bool, span: Span, n: int) -> bool {
    forall|j: int|
        0 <= j < n ==> #[trigger] check_error(sheets, j, span) is None && sheet_writable(sheets[j].1, raw)
}

/// Whether an error is what writing these sheets fails with: the sheets
/// before sheet `k` pass, and sheet `k` does not, or fails to be written.
#[verifier::opaque]
pub open spec fn failure_explained(sheets: Seq<(String, Value)>, raw: bool, span: Span, e: ErrorView) -> bool {
    exists|k: int|
        #![trigger check_error(sheets, k, span)]
        {
            &&& 0 <= k < sheets.len()
            &&& sheets_pass(sheets, raw, span, k)
            &&& (check_error(sheets, k, span) == Some(e) || (check_error(sheets, k, span) is None
                && sheet_failure(sheets[k].1, raw, span, e)))
        }
}

/// Whether an error is what saving the workbook fails with once every
/// sheet is written: the workbook handed to the save holds the sheets as
/// written, and the writer refuses it.
pub open spec fn save_failed(
    sheets: Seq<(String, Value)>,
    raw: bool,
    span: Span,
    wb: Workbook,
    e: ErrorView,
) -> bool {
    &&& sheets_pass(sheets, raw, span, sheets.len() as int)
    &&& all_written(sheets, raw, workbook_sheets(wb))
    &&& save_refused(wb)
    &&& is_failure(e, "Failed to write workbook"@, span)
}

/// When every sheet passes its checks and its writes, no sheet explains a
/// failure: the conversion can then only fail at the save, as `save_failed`
/// states.
pub proof fn lemma_passing_sheets_fail_only_at_save(
    sheets: Seq<(String, Value)>,
    raw: bool,
    span: Span,
    e: ErrorView,
)
    requires
        sheets_pass(sheets, raw, span, sheets.len() as int),
    ensures
        !failure_explained(sheets, raw, span, e),
{
    reveal(failure_explained);
    if failure_explained(sheets, raw, span, e) {
        let k = choose|k: int|
            #![trigger check_error(sheets, k, span)]
            {
                &&& 0 <= k < sheets.len()
                &&& sheets_pass(sheets, raw, span, k)
                &&& (check_error(sheets, k, span) == Some(e) || (check_error(sheets, k, span) is None
                    && sheet_failure(sheets[k].1, raw, span, e)))
            };
        assert(check_error(sheets, k, span) is None && sheet_writable(sheets[k].1, raw));
    }
}

/// Whether an error is the one for two sheet names that fold to the same
/// text: the first sheet whose name repeats an earlier one, and the
/// earliest sheet it repeats.
pub open spec fn duplicate_reported(sheets: Seq<(String, Value)>, span: Span, e: ErrorView) -> bool {
    exists|m: int, j: int|
        #![trigger folded_names(sheets)[m], folded_names(sheets)[j]]
        {
            &&& 0 <= m < j < sheets.len()
            &&& folded_names(sheets)[m] == folded_names(sheets)[j]
            &&& forall|m2: int| 0 <= m2 < m ==> folded_names(sheets)[m2] != folded_names(sheets)[j]
            &&& distinct_up_to(folded_names(sheets), j)
            &&& e == duplicate_error(sheets[m].0@, sheets[j].0@, span)
        }
}

/// Whether a worksheet, after a number is written to cell (row, col), is
/// the one before but for that cell.
pub open spec fn writes_one_cell(before: Worksheet, after: Worksheet, row: u32, col: u16) -> bool {
    &&& sheet_title(after) == sheet_title(before)
    &&& sheet_tables(after) == sheet_tables(before)
    &&& sheet_autofiltered(after) == sheet_autofiltered(before)
    &&& sizes_by_default(after) == sizes_by_default(before)
    &&& forall|k: (u32, u16)|
        #![trigger sheet_cells(after).dom().contains(k)]
        #![trigger sheet_cells(before).dom().contains(k)]
        k != (row, col) ==> {
            &&& (sheet_cells(after).dom().contains(k) <==> sheet_cells(before).dom().contains(k))
            &&& sheet_cells(after).dom().contains(k) ==> sheet_cells(after)[k] == sheet_cells(before)[k]
        }
}

/// Whether the value under column `c` of record `r` of sheet `k` is a
/// float or a duration: a number that the caller writes.
pub open spec fn float_at(sheets: Seq<(String, Value)>, k: int, r: int, c: int) -> Option<Value> {
    if 0 <= k < sheets.len() {
        match sheets[k].1.kind {
            ValueKind::List(records) => match planned_value(records@, sheet_columns(records@), r, c) {
                Some(v) => if is_float_cell(v) {
                    Some(v)
                } else {
                    None
                },
                None => None,
            },
            _ => None,
        }
    } else {
        None
    }
}

/// The cells of the sheets' bodies that hold a float or a duration, each by
/// its sheet, record and column.
#[verifier::opaque]
pub open spec fn float_cells(sheets: Seq<(String, Value)>) -> Set<(int, int, int)> {
    Set::new(|t: (int, int, int)| float_at(sheets, t.0, t.1, t.2) is Some)
}

/// Whether body cell `a` comes before body cell `b`, each by its sheet,
/// record and column: sheet by sheet, then row by row.
pub open spec fn earlier(a: (int, int, int), b: (int, int, int)) -> bool {
    a.0 < b.0 || (a.0 == b.0 && before(a.1, a.2, b.1, b.2))
}

/// Those of them before cell (r, c) of sheet k, sheet by sheet and row by row.
pub open spec fn float_cells_before(sheets: Seq<(String, Value)>, k: int, r: int, c: int) -> Set<
    (int, int, int),
> {
    Set::new(
        |t: (int, int, int)|
            float_at(sheets, t.0, t.1, t.2) is Some && (t.0 < k || (t.0 == k && before(t.1, t.2, r, c))),
    )
}

/// The Tables a sheet gets: none for a table without rows or when writing
/// raw cells; otherwise one over the header row and all rows.
pub open spec fn expected_tables(value: Value, raw: bool) -> Seq<(u32, u16, u32, u16)> {
    match value.kind {
        ValueKind::List(records) => if records@.len() == 0 || raw {
            Seq::empty()
        } else {
            Seq::empty().push(
                table_range(records@.len(), sheet_columns(records@).len() as u16),
            )
        },
        _ => Seq::empty(),
    }
}

/// Whether a workbook's worksheet is what sheet `k` is written as: named by
/// its key, holding its table as `holds_content` states (but for the floats
/// and durations, which the caller writes), with the Tables it gets, every
/// column that holds a cell autofit measures given a width, each column
/// with a date in any record at least `date_column_width()` characters
/// wide, and empty when its table has no rows.
pub open spec fn sheet_written(sheets: Seq<(String, Value)>, k: int, raw: bool, entry: SheetEntry) -> bool {
    &&& entry.0 == sheets[k].0@
    &&& sheet_writable(sheets[k].1, raw)
    &&& sheets[k].1.kind matches ValueKind::List(records) ==> (records@.len() > 0 ==> holds_content(
        entry.1,
        records@,
        sheet_columns(records@),
        raw,
    ))
    &&& entry.2 == expected_tables(sheets[k].1, raw)
    &&& columns_fitted(entry.1, entry.3)
    &&& sheets[k].1.kind matches ValueKind::List(records) ==> forall|r: int, c: int|
        #[trigger] planned_value(records@, sheet_columns(records@), r, c) matches Some(v) && v.kind is Date
            ==> entry.3.dom().contains(c as u16) && entry.3[c as u16].0 >= width_pixels(20)
    &&& sheets[k].1.kind matches ValueKind::List(records) ==> (records@.len() == 0 ==> (entry.1
        =~= Map::empty()))
}

/// Whether worksheets are what the sheets are written as, one each, in order.
#[verifier::opaque]
pub open spec fn all_written(sheets: Seq<(String, Value)>, raw: bool, saved: Seq<SheetEntry>) -> bool {
    &&& saved.len() == sheets.len()
    &&& forall|k: int| 0 <= k < sheets.len() ==> sheet_written(sheets, k, raw, #[trigger] saved[k])
}

/// The worksheets a saved file holds: those saved, or a lone empty
/// `Sheet1` when there are none.
pub open spec fn saved_file(saved: Seq<SheetEntry>) -> Seq<SheetEntry> {
    if saved.len() == 0 {
        seq![lone_sheet()]
    } else {
        saved
    }
}

/// A sheet being written: its worksheet, which sheet it is, its columns,
/// the columns that received a date, the next body cell to fill, and the
/// number the caller is to write, if any, with its cell and its value's span.
pub struct SheetInProgress {
    sheet: Worksheet,
    index: usize,
    columns: Vec<String>,
    has_date: Vec<bool>,
    next_cell: Position,
    pending: Option<(Position, Span)>,
}

/// The conversion of sheets into an xlsx workbook, one step at a time. Each
/// sheet is checked, named, given its header row and body, and finished
/// with its Table, date widths and autofit; then the workbook is saved.
/// Floats and durations are written by the caller, when a step asks for one.
pub struct Conversion {
    sheets: Vec<(String, Value)>,
    raw: bool,
    span: Span,
    workbook: Workbook,
    next_sheet: usize,
    current: Option<SheetInProgress>,
    saved: Ghost<Workbook>,
    asked: Ghost<Set<(int, int, int)>>,
}

/// What a step of a conversion asks of its caller.
pub enum Step {
    /// Write the number with these IEEE-754 bits at this row and column of
    /// the sheet in progress, then report with `number_written`.
    WriteNumber { row: u32, col: u16, bits: u64 },
    /// The workbook, saved as xlsx bytes.
    Done(Vec<u8>),
    Failed(LabeledError),
}

/// Whether the sheets before `next` pass their checks, and the first `done`
/// of them are written, in order, as the workbook's worksheets.
closed spec fn sheets_done(
    sheets: Seq<(String, Value)>,
    raw: bool,
    span: Span,
    workbook: Workbook,
    next: int,
    done: int,
) -> bool {
    &&& 0 <= done <= next <= sheets.len()
    &&& distinct_up_to(folded_names(sheets), sheets.len() as int)
    &&& forall|k: int| 0 <= k < next ==> #[trigger] check_error(sheets, k, span) is None
    &&& workbook_sheets(workbook).len() == done
    &&& sheets_pass(sheets, raw, span, done)
    &&& forall|k: int|
        0 <= k < done ==> sheet_written(sheets, k, raw, #[trigger] workbook_sheets(workbook)[k])
}

/// Whether a step from one conversion to another asked for the number at
/// (row, col) with these bits: that of the float or duration at the cell
/// `pending_cell` names, which joins the cells asked for and, unless a
/// number was already pending, comes after every one of them.
pub open spec fn asked_for(before: Conversion, after: Conversion, row: u32, col: u16, bits: u64) -> bool {
    let t = after.pending_cell();
    &&& 0 <= t.0 < before.sheets().len()
    &&& 0 <= t.1 <= usize::MAX
    &&& 0 <= t.2 <= usize::MAX
    &&& float_at(before.sheets(), t.0, t.1, t.2) matches Some(v)
    &&& float_bits(v) == bits
    &&& after.pending_value() == Some(v)
    &&& row == t.1 + 1
    &&& col == t.2
    &&& after.asked() == before.asked().insert(t)
    &&& before.pending_number() is None ==> forall|u: (int, int, int)|
        #[trigger] before.asked().contains(u) ==> earlier(u, t)
}

/// Whether a sheet in progress is its table's sheet, named and headed, and
/// filled up to its next cell but for the floats and durations; its date
/// columns those that received a date; its pending number, if any, the
/// float or duration at its next cell.
closed spec fn sheet_progress(sheets: Seq<(String, Value)>, p: SheetInProgress) -> bool {
    &&& p.index < sheets.len()
    &&& sheet_title(p.sheet) == sheets[p.index as int].0@
    &&& sheet_tables(p.sheet) =~= Seq::empty()
    &&& !sheet_autofiltered(p.sheet)
    &&& sizes_by_default(p.sheet)
    &&& sheets[p.index as int].1.kind matches ValueKind::List(records)
    &&& records@.len() > 0
    &&& p.columns@.len() <= MAX_COLUMNS
    &&& names_of(p.columns@) == sheet_columns(records@)
    &&& p.has_date@.len() == p.columns@.len()
    &&& p.next_cell.row_idx < records@.len()
    &&& p.next_cell.col <= p.columns@.len()
    &&& p.next_cell.col > 0 ==> p.next_cell.row_idx + 1 <= u32::MAX
    &&& p.next_cell.row_idx > 0 ==> p.next_cell.row_idx <= u32::MAX
    &&& headers_fit(names_of(p.columns@))
    &&& agree_but_floats(
        sheet_cells(p.sheet),
        filled(
            with_headers(Map::empty(), names_of(p.columns@), p.columns@.len()),
            records@,
            names_of(p.columns@),
            0,
            0,
            p.next_cell.row_idx as int,
            p.next_cell.col as int,
        ),
        records@,
        names_of(p.columns@),
    )
    &&& stretch_fits(records@, names_of(p.columns@), 0, 0, p.next_cell.row_idx as int, p.next_cell.col as int)
    &&& forall|c: int|
        0 <= c < p.columns@.len() ==> #[trigger] p.has_date@[c] == date_in_stretch(
            records@,
            names_of(p.columns@),
            0,
            0,
            p.next_cell.row_idx as int,
            p.next_cell.col as int,
            c,
        )
    &&& p.pending matches Some((at, value_span)) ==> {
        &&& at == p.next_cell
        &&& at.col < p.columns@.len()
        &&& at.row_idx + 1 <= u32::MAX
        &&& planned_value(records@, names_of(p.columns@), at.row_idx as int, at.col as int) matches Some(v)
        &&& is_float_cell(v)
        &&& v.span == value_span
    }
}

/// Filling sheet `k` from one cell to another that passes no float or
/// duration leaves the same float cells before it.
proof fn lemma_no_float_skipped(
    sheets: Seq<(String, Value)>,
    k: int,
    names: Seq<Seq<char>>,
    fr: int,
    fc: int,
    tr: int,
    tc: int,
)
    requires
        0 <= k < sheets.len(),
        sheets[k].1.kind matches ValueKind::List(records) && names == sheet_columns(records@)
            && no_float_in_stretch(records@, names, fr, fc, tr, tc),
        !before(tr, tc, fr, fc),
    ensures
        float_cells_before(sheets, k, tr, tc) == float_cells_before(sheets, k, fr, fc),
{
    let records = sheets[k].1.kind->List_0@;
    assert forall|t: (int, int, int)|
        #[trigger] float_cells_before(sheets, k, tr, tc).contains(t) == float_cells_before(
            sheets,
            k,
            fr,
            fc,
        ).contains(t) by {
        if t.0 == k && float_at(sheets, t.0, t.1, t.2) is Some {
            assert(planned_value(records, names, t.1, t.2) is Some);
        }
    }
    assert(float_cells_before(sheets, k, tr, tc) =~= float_cells_before(sheets, k, fr, fc));
}

impl Conversion {
    pub closed spec fn sheets(&self) -> Seq<(String, Value)> {
        self.sheets@
    }

    pub closed spec fn span(&self) -> Span {
        self.span
    }

    pub closed spec fn raw(&self) -> bool {
        self.raw
    }

    /// The number the caller is to write: its row, column and bits.
    pub closed spec fn pending_number(&self) -> Option<(u32, u16, u64)> {
        match self.current {
            Some(p) => match p.pending {
                Some((at, _)) => match self.sheets@[p.index as int].1.kind {
                    ValueKind::List(records) => match planned_value(
                        records@,
                        names_of(p.columns@),
                        at.row_idx as int,
                        at.col as int,
                    ) {
                        Some(v) => Some(((at.row_idx + 1) as u32, at.col as u16, float_bits(v))),
                        None => None,
                    },
                    _ => None,
                },
                None => None,
            },
            None => None,
        }
    }

    /// The float or duration whose number the caller is to write.
    pub closed spec fn pending_value(&self) -> Option<Value> {
        match self.current {
            Some(p) => match p.pending {
                Some((at, _)) => match self.sheets@[p.index as int].1.kind {
                    ValueKind::List(records) => planned_value(
                        records@,
                        names_of(p.columns@),
                        at.row_idx as int,
                        at.col as int,
                    ),
                    _ => None,
                },
                None => None,
            },
            None => None,
        }
    }

    /// The float and duration cells whose numbers the conversion has asked
    /// its caller to write, each by its sheet, record and column.
    pub closed spec fn asked(&self) -> Set<(int, int, int)> {
        self.asked@
    }

    /// The cell whose number the caller is to write, by its sheet, record
    /// and column.
    pub closed spec fn pending_cell(&self) -> (int, int, int) {
        match self.current {
            Some(p) => match p.pending {
                Some((at, _)) => (p.index as int, at.row_idx as int, at.col as int),
                None => (0, 0, 0),
            },
            None => (0, 0, 0),
        }
    }

    /// The worksheets the workbook held when it was saved.
    pub closed spec fn saved_sheets(&self) -> Seq<SheetEntry> {
        workbook_sheets(self.saved@)
    }

    /// The workbook as it was handed to the save.
    pub closed spec fn saved_workbook(&self) -> Workbook {
        self.saved@
    }

    /// The worksheet of the sheet being written.
    pub closed spec fn sheet_in_progress(&self) -> Worksheet {
        match self.current {
            Some(p) => p.sheet,
            None => arbitrary(),
        }
    }

    /// The conversion with another worksheet in place of the one being written.
    pub closed spec fn with_sheet_in_progress(self, ws: Worksheet) -> Conversion {
        match self.current {
            Some(p) => Conversion { current: Some(SheetInProgress { sheet: ws, ..p }), ..self },
            None => self,
        }
    }

    /// Whether a sheet is being written.
    pub closed spec fn in_progress(&self) -> bool {
        self.current is Some
    }

    /// Whether the conversion's parts agree with each other.
    pub closed spec fn inv(&self) -> bool {
        match self.current {
            None => {
                &&& sheets_done(
                    self.sheets@,
                    self.raw,
                    self.span,
                    self.workbook,
                    self.next_sheet as int,
                    self.next_sheet as int,
                )
                &&& self.asked@ == float_cells_before(self.sheets@, self.next_sheet as int, 0, 0)
            },
            Some(p) => {
                &&& p.index + 1 == self.next_sheet
                &&& self.asked@ == match p.pending {
                    None => float_cells_before(
                        self.sheets@,
                        p.index as int,
                        p.next_cell.row_idx as int,
                        p.next_cell.col as int,
                    ),
                    Some((at, _)) => float_cells_before(
                        self.sheets@,
                        p.index as int,
                        p.next_cell.row_idx as int,
                        p.next_cell.col as int,
                    ).insert((p.index as int, at.row_idx as int, at.col as int)),
                }
                &&& sheets_done(
                    self.sheets@,
                    self.raw,
                    self.span,
                    self.workbook,
                    self.next_sheet as int,
                    self.next_sheet - 1,
                )
                &&& sheet_progress(self.sheets@, p)
            },
        }
    }

    /// Writing the number a step asked for, at its cell and nowhere else,
    /// keeps a conversion consistent, whatever that cell then holds: its
    /// sheets and its pending number and value stay as they were.
    pub proof fn lemma_number_write_keeps_inv(self, ws: Worksheet)
        requires
            self.inv(),
            self.pending_number() matches Some((row, col, _)) && writes_one_cell(
                self.sheet_in_progress(),
                ws,
                row,
                col,
            ),
        ensures
            self.with_sheet_in_progress(ws).inv(),
            self.with_sheet_in_progress(ws).pending_number() == self.pending_number(),
            self.with_sheet_in_progress(ws).pending_value() == self.pending_value(),
            self.with_sheet_in_progress(ws).asked() == self.asked(),
            self.with_sheet_in_progress(ws).sheets() == self.sheets(),
            self.with_sheet_in_progress(ws).span() == self.span(),
            self.with_sheet_in_progress(ws).raw() == self.raw(),
    {
        let p = self.current->0;
        let q = SheetInProgress { sheet: ws, ..p };
        let records = self.sheets@[p.index as int].1.kind->List_0@;
        let names = names_of(p.columns@);
        let (at, _) = p.pending->0;
        let key = ((at.row_idx + 1) as u32, at.col as u16);
        assert(is_float_position(records, names, key));
        let target = filled(
            with_headers(Map::empty(), names, p.columns@.len()),
            records,
            names,
            0,
            0,
            p.next_cell.row_idx as int,
            p.next_cell.col as int,
        );
        assert forall|k: (u32, u16)| !is_float_position(records, names, k) implies {
            &&& (sheet_cells(ws).dom().contains(k) <==> target.dom().contains(k))
            &&& sheet_cells(ws).dom().contains(k) ==> sheet_cells(ws)[k] == target[k]
        } by {
            assert(k != key);
            assert(sheet_cells(p.sheet).dom().contains(k) <==> target.dom().contains(k));
        }
        assert(sheet_progress(self.sheets@, q));
    }

    /// Starts converting sheets into a workbook; refuses two sheet names that
    /// differ only in case, as `reject_duplicate_sheet_names` does.
    pub fn start(sheets: Vec<(String, Value)>, raw: bool, span: Span) -> (r: Result<Conversion, LabeledError>)
        ensures
            match r {
                Ok(c) => {
                    &&& c.inv()
                    &&& c.sheets() == sheets@
                    &&& c.span() == span
                    &&& c.raw() == raw
                    &&& c.pending_number() is None
                    &&& c.asked() =~= Set::empty()
                    &&& distinct_up_to(folded_names(sheets@), sheets@.len() as int)
                },
                Err(e) => duplicate_reported(sheets@, span, e@),
            },
    {
        match reject_duplicate_sheet_names(&sheets, span) {
            Err(e) => Err(e),
            Ok(()) => {
                proof {
                    assert(float_cells_before(sheets@, 0, 0, 0) =~= Set::empty());
                }
                Ok(Conversion {
                    sheets,
                    raw,
                    span,
                    workbook: new_workbook(),
                    next_sheet: 0,
                    current: None,
                    saved: Ghost(arbitrary()),
                    asked: Ghost(Set::empty()),
                })
            },
        }
    }

    /// The worksheet in progress, on which the caller writes the number a
    /// step asked for. What the caller leaves in it stays in the conversion.
    pub fn pending_sheet(&mut self) -> (r: Option<&mut Worksheet>)
        ensures
            r is Some <==> old(self).in_progress(),
            r is None ==> *final(self) == *old(self),
            r is Some ==> *r->0 == old(self).sheet_in_progress() && *final(self)
                == old(self).with_sheet_in_progress(*final(r->0)),
            r is Some ==> final(self).sheet_in_progress() == *final(r->0),
            old(self).pending_number() is Some ==> r is Some,
    {
        match &mut self.current {
            Some(p) => Some(&mut p.sheet),
            None => None,
        }
    }

    /// Takes in what became of the number a step asked the caller to write:
    /// its writer's error, in words, fails the conversion with the span of
    /// the number's value; success moves filling on past its cell.
    pub fn number_written(&mut self, outcome: Result<(), String>) -> (r: Result<(), LabeledError>)
        requires
            old(self).inv(),
        ensures
            final(self).inv(),
            final(self).sheets() == old(self).sheets(),
            final(self).span() == old(self).span(),
            final(self).raw() == old(self).raw(),
            final(self).pending_number() is None,
            final(self).asked() == old(self).asked(),
            r is Err <==> outcome is Err && old(self).pending_number() is Some,
            r matches Err(e) ==> old(self).pending_value() matches Some(v) && e@ == error_view(
                "Failed to write cell"@,
                outcome->Err_0@,
                v.span,
                None,
            ),
    {
        match self.current.take() {
            None => Ok(()),
            Some(mut p) => {
                let result = match p.pending {
                    None => Ok(()),
                    Some((at, value_span)) => {
                        let ghost k = p.index as int;
                        proof {
                            let records = self.sheets@[k].1.kind->List_0@;
                            let names = names_of(p.columns@);
                            lemma_filled_step(
                                with_headers(Map::empty(), names, p.columns@.len()),
                                records,
                                names,
                                0,
                                0,
                                at.row_idx as int,
                                at.col as int,
                            );
                            assert(float_at(self.sheets@, k, at.row_idx as int, at.col as int) is Some);
                            assert(float_cells_before(self.sheets@, k, at.row_idx as int, at.col + 1)
                                =~= float_cells_before(self.sheets@, k, at.row_idx as int, at.col as int).insert(
                                (k, at.row_idx as int, at.col as int),
                            ));
                        }
                        p.next_cell = Position { row_idx: at.row_idx, col: at.col + 1 };
                        match outcome {
                            Err(words) => Err(LabeledError::new("Failed to write cell".to_owned(), words, value_span)),
                            Ok(()) => Ok(()),
                        }
                    },
                };
                p.pending = None;
                self.current = Some(p);
                result
            },
        }
    }

    /// Saves the workbook once every sheet is written.
    fn save(&mut self) -> (s: Step)
        requires
            old(self).inv(),
            old(self).current is None,
            old(self).next_sheet == old(self).sheets@.len(),
        ensures
            final(self).sheets() == old(self).sheets(),
            final(self).span() == old(self).span(),
            final(self).raw() == old(self).raw(),
            match s {
                Step::Done(bytes) => {
                    &&& sheets_pass(old(self).sheets(), old(self).raw(), old(self).span(), old(self).sheets().len() as int)
                    &&& final(self).asked() == float_cells(old(self).sheets())
                    &&& final(self).asked() == old(self).asked()
                    &&& all_written(old(self).sheets(), old(self).raw(), final(self).saved_sheets())
                    &&& xlsx_sheets(bytes@) == saved_file(final(self).saved_sheets())
                },
                Step::Failed(e) => save_failed(
                    old(self).sheets(),
                    old(self).raw(),
                    old(self).span(),
                    final(self).saved_workbook(),
                    e@,
                ),
                Step::WriteNumber { .. } => false,
            },
    {
        self.saved = Ghost(self.workbook);
        proof {
            reveal(all_written);
            reveal(float_cells);
            assert(float_cells_before(self.sheets@, self.sheets@.len() as int, 0, 0) =~= float_cells(self.sheets@));
            let written = workbook_sheets(self.workbook);
            if names_reused(written) {
                let (i, j) = choose|i: int, j: int|
                    #![trigger str_lowercase(written[i].0), str_lowercase(written[j].0)]
                    0 <= i < j < written.len() && str_lowercase(written[i].0) == str_lowercase(written[j].0);
                assert(folded_names(self.sheets@)[i] == folded_names(self.sheets@)[j]);
            }
        }
        match save_to_buffer(&mut self.workbook) {
            Ok(bytes) => Step::Done(bytes),
            Err(e) => Step::Failed(LabeledError::new("Failed to write workbook".to_owned(), error_text(&e), self.span)),
        }
    }

    /// Starts the next sheet: checks its shape and name, and, for a table
    /// with rows, writes its header row. A table without rows is a named,
    /// empty worksheet at once.
    fn start_sheet(&mut self) -> (s: Option<Step>)
        requires
            old(self).inv(),
            old(self).current is None,
            old(self).next_sheet < old(self).sheets@.len(),
            old(self).sheets@.len() <= usize::MAX,
        ensures
            final(self).sheets() == old(self).sheets(),
            final(self).span() == old(self).span(),
            final(self).raw() == old(self).raw(),
            match s {
                None => final(self).inv() && final(self).next_sheet == old(self).next_sheet + 1
                    && final(self).asked() == old(self).asked() && final(self).pending_number() is None,
                Some(Step::Failed(e)) => failure_explained(old(self).sheets(), old(self).raw(), old(self).span(), e@),
                Some(_) => false,
            },
    {
        let k = self.next_sheet;
        let span = self.span;
        let ghost sheets = self.sheets@;
        let name = &self.sheets[k].0;
        proof {
            reveal(failure_explained);
            // Names this sheet as the witness of `failure_explained`, should it fail.
            assert(check_error(sheets, k as int, span) == check_error(sheets, k as int, span));
        }
        match sheet_shape(&self.sheets[k].1, span) {
            Err(e) => Some(Step::Failed(e)),
            Ok(SheetShape::Empty) => {
                let mut ws = new_worksheet();
                match name_sheet(&mut ws, name.as_str(), span) {
                    Err(e) => {
                        return Some(Step::Failed(e));
                    },
                    Ok(()) => {},
                }
                push_worksheet(&mut self.workbook, ws);
                self.next_sheet = k + 1;
                proof {
                    assert(float_cells_before(sheets, k + 1, 0, 0) =~= float_cells_before(sheets, k as int, 0, 0));
                }
                None
            },
            Ok(SheetShape::Rows { records, columns }) => {
                let mut ws = new_worksheet();
                match name_sheet(&mut ws, name.as_str(), span) {
                    Err(e) => {
                        return Some(Step::Failed(e));
                    },
                    Ok(()) => {},
                }
                match write_headers(&mut ws, &columns, span) {
                    Err(e) => {
                        return Some(Step::Failed(e));
                    },
                    Ok(()) => {},
                }
                let mut has_date: Vec<bool> = Vec::new();
                let mut c: usize = 0;
                while c < columns.len()
                    invariant
                        c <= columns@.len(),
                        has_date@.len() == c,
                        forall|cc: int| 0 <= cc < c ==> !#[trigger] has_date@[cc],
                    decreases columns@.len() - c,
                {
                    has_date.push(false);
                    c = c + 1;
                }
                proof {
                    let names = names_of(columns@);
                    let headers = with_headers(Map::empty(), names, columns@.len());
                    assert(filled(headers, records@, names, 0, 0, 0, 0) =~= headers);
                }
                self.current = Some(SheetInProgress {
                    sheet: ws,
                    index: k,
                    columns,
                    has_date,
                    next_cell: Position { row_idx: 0, col: 0 },
                    pending: None,
                });
                self.next_sheet = k + 1;
                None
            },
        }
    }

    /// Goes on with the sheet in progress: asks again for a number not yet
    /// reported; otherwise fills its body until a number is due, and
    /// finishes and adds it to the workbook once it is full.
    fn continue_sheet(&mut self) -> (s: Option<Step>)
        requires
            old(self).inv(),
            old(self).current is Some,
        ensures
            final(self).sheets() == old(self).sheets(),
            final(self).span() == old(self).span(),
            final(self).raw() == old(self).raw(),
            match s {
                None => final(self).inv() && final(self).current is None && final(self).next_sheet
                    == old(self).next_sheet && final(self).asked() == old(self).asked(),
                Some(Step::WriteNumber { row, col, bits }) => {
                    &&& final(self).inv()
                    &&& final(self).pending_number() == Some((row, col, bits))
                    &&& asked_for(*old(self), *final(self), row, col, bits)
                },
                Some(Step::Failed(e)) => failure_explained(old(self).sheets(), old(self).raw(), old(self).span(), e@),
                Some(Step::Done(_)) => false,
            },
    {
        let ghost sheets = self.sheets@;
        if let Some(p) = &self.current {
            if let Some((at, _)) = p.pending {
                let records = match &self.sheets[p.index].1.kind {
                    ValueKind::List(records) => records,
                    _ => {
                        proof {
                            assert(false);
                        }
                        return None;
                    },
                };
                let row = (at.row_idx + 1) as u32;
                let col = at.col as u16;
                let bits = pending_bits(records, &p.columns, at);
                proof {
                    assert(float_at(sheets, p.index as int, at.row_idx as int, at.col as int) is Some);
                    assert(self.asked@.insert((p.index as int, at.row_idx as int, at.col as int)) =~= self.asked@);
                }
                return Some(Step::WriteNumber { row, col, bits });
            }
        }
        let mut p = match self.current.take() {
            Some(p) => p,
            None => {
                proof {
                    assert(false);
                }
                return None;
            },
        };
        let ghost k = p.index as int;
        proof {
            reveal(failure_explained);
            // Names this sheet as the witness of `failure_explained`, should it fail.
            assert(check_error(sheets, k, self.span) == check_error(sheets, k, self.span));
        }
        let records = match &self.sheets[p.index].1.kind {
            ValueKind::List(records) => records,
            _ => {
                proof {
                    assert(false);
                }
                self.current = Some(p);
                return None;
            },
        };
        let ghost names = names_of(p.columns@);
        let from = p.next_cell;
        let ghost cells_before = sheet_cells(p.sheet);
        let row_count = records.len();
        match fill_cells(&mut p.sheet, records, &p.columns, from, &mut p.has_date, self.span) {
            FillStop::Number { at, row, col, bits, span: value_span } => {
                proof {
                    lemma_stretches_join(
                        records@,
                        names,
                        0,
                        0,
                        from.row_idx as int,
                        from.col as int,
                        at.row_idx as int,
                        at.col as int,
                    );
                    assert(float_at(sheets, k, at.row_idx as int, at.col as int) is Some);
                    lemma_headers_content(names, p.columns@.len());
                    lemma_fill_agrees(
                        cells_before,
                        with_headers(Map::empty(), names, p.columns@.len()),
                        records@,
                        names,
                        from.row_idx as int,
                        from.col as int,
                        at.row_idx as int,
                        at.col as int,
                    );
                }
                proof {
                    lemma_no_float_skipped(
                        sheets,
                        k,
                        names,
                        from.row_idx as int,
                        from.col as int,
                        at.row_idx as int,
                        at.col as int,
                    );
                }
                p.next_cell = at;
                p.pending = Some((at, value_span));
                self.asked = Ghost(self.asked@.insert((k, at.row_idx as int, at.col as int)));
                self.current = Some(p);
                Some(Step::WriteNumber { row, col, bits })
            },
            FillStop::Failed(e) => Some(Step::Failed(e)),
            FillStop::Finished => {
                proof {
                    lemma_stretches_join(
                        records@,
                        names,
                        0,
                        0,
                        from.row_idx as int,
                        from.col as int,
                        records@.len() as int,
                        0,
                    );
                    lemma_headers_content(names, p.columns@.len());
                    lemma_fill_agrees(
                        cells_before,
                        with_headers(Map::empty(), names, p.columns@.len()),
                        records@,
                        names,
                        from.row_idx as int,
                        from.col as int,
                        records@.len() as int,
                        0,
                    );
                    lemma_fresh_sheet_content(records@, names);
                    lemma_no_float_skipped(
                        sheets,
                        k,
                        names,
                        from.row_idx as int,
                        from.col as int,
                        records@.len() as int,
                        0,
                    );
                    assert(float_cells_before(sheets, k + 1, 0, 0) =~= float_cells_before(
                        sheets,
                        k,
                        records@.len() as int,
                        0,
                    ));
                }
                self.complete_sheet(p, row_count)
            },
        }
    }

    /// Finishes a full sheet and adds it to the workbook.
    fn complete_sheet(&mut self, p: SheetInProgress, row_count: usize) -> (s: Option<Step>)
        requires
            old(self).current is None,
            p.index + 1 == old(self).next_sheet,
            sheets_done(
                old(self).sheets@,
                old(self).raw,
                old(self).span,
                old(self).workbook,
                old(self).next_sheet as int,
                old(self).next_sheet - 1,
            ),
            p.index < old(self).sheets@.len(),
            old(self).asked@ == float_cells_before(old(self).sheets@, old(self).next_sheet as int, 0, 0),
            sheet_title(p.sheet) == old(self).sheets@[p.index as int].0@,
            sheet_tables(p.sheet) =~= Seq::empty(),
            !sheet_autofiltered(p.sheet),
            sizes_by_default(p.sheet),
            old(self).sheets@[p.index as int].1.kind matches ValueKind::List(records) && {
                &&& records@.len() == row_count
                &&& row_count > 0
                &&& row_count <= u32::MAX
                &&& p.columns@.len() <= MAX_COLUMNS
                &&& names_of(p.columns@) == sheet_columns(records@)
                &&& p.has_date@.len() == p.columns@.len()
                &&& headers_fit(names_of(p.columns@))
                &&& agree_but_floats(
                    sheet_cells(p.sheet),
                    content_but_floats(records@, names_of(p.columns@)),
                    records@,
                    names_of(p.columns@),
                )
                &&& stretch_fits(records@, names_of(p.columns@), 0, 0, row_count as int, 0)
                &&& forall|c: int|
                    0 <= c < p.columns@.len() ==> #[trigger] p.has_date@[c] == date_in_stretch(
                        records@,
                        names_of(p.columns@),
                        0,
                        0,
                        row_count as int,
                        0,
                        c,
                    )
            },
        ensures
            final(self).sheets() == old(self).sheets(),
            final(self).span() == old(self).span(),
            final(self).raw() == old(self).raw(),
            match s {
                None => final(self).inv() && final(self).current is None && final(self).next_sheet
                    == old(self).next_sheet && final(self).asked() == old(self).asked(),
                Some(Step::Failed(e)) => failure_explained(old(self).sheets(), old(self).raw(), old(self).span(), e@),
                Some(_) => false,
            },
    {
        let mut p = p;
        let ghost sheets = self.sheets@;
        let ghost k = p.index as int;
        let ghost records = sheets[k].1.kind->List_0@;
        let ghost names = names_of(p.columns@);
        let ghost cells_filled = sheet_cells(p.sheet);
        proof {
            reveal(failure_explained);
            // Names this sheet as the witness of `failure_explained`, should it fail.
            assert(check_error(sheets, k, self.span) == check_error(sheets, k, self.span));
            assert(sheets_pass(sheets, self.raw, self.span, k));
        }
        let ncols = p.columns.len() as u16;
        proof {
            if 0 < names.len() <= COL_LIMIT {
                lemma_table_titles(cells_filled, records, names);
            }
            assert(table_allowed(cells_filled, row_count as nat, ncols) <==> table_made(records));
        }
        match finish_sheet(&mut p.sheet, row_count, ncols, self.raw, &p.has_date, self.span) {
            Err(e) => {
                proof {
                    if date_column_off_grid(p.has_date@) {
                        let c = choose|c: int| 0 <= c < p.has_date@.len() && #[trigger] p.has_date@[c] && c >= COL_LIMIT;
                        assert(date_in_stretch(records, names, 0, 0, records.len() as int, 0, c));
                    }
                }
                return Some(Step::Failed(e));
            },
            Ok(()) => {},
        }
        proof {
            lemma_finished_holds_content(cells_filled, sheet_cells(p.sheet), records, names, self.raw);
            assert(!date_beyond_grid(records, names)) by {
                if date_beyond_grid(records, names) {
                    let c = choose|c: int|
                        0 <= c < names.len() && c >= COL_LIMIT && #[trigger] date_in_stretch(
                            records,
                            names,
                            0,
                            0,
                            records.len() as int,
                            0,
                            c,
                        );
                    assert(p.has_date@[c]);
                }
            }
        }
        proof {
            assert forall|r: int, c: int|
                #[trigger] planned_value(records, names, r, c) matches Some(v) && v.kind is Date implies column_widths(
                    p.sheet,
                ).dom().contains(c as u16) && column_widths(p.sheet)[c as u16].0 >= width_pixels(20) by {
                lemma_any_date_marks_its_column(records, names, 0, 0, records.len() as int, 0, r, c);
                assert(p.has_date@[c]);
            }
        }
        let ghost before = workbook_sheets(self.workbook);
        push_worksheet(&mut self.workbook, p.sheet);
        proof {
            assert(sheet_written(sheets, k, self.raw, workbook_sheets(self.workbook)[k]));
            assert forall|j: int| 0 <= j < k + 1 implies sheet_written(
                sheets,
                j,
                self.raw,
                #[trigger] workbook_sheets(self.workbook)[j],
            ) by {
                if j < k {
                    assert(workbook_sheets(self.workbook)[j] == before[j]);
                }
            }
            assert(sheets_pass(sheets, self.raw, self.span, k + 1));
        }
        None
    }

    /// Goes on with the conversion until it is done, fails, or needs the
    /// caller to write a number.
    pub fn step(&mut self) -> (s: Step)
        requires
            old(self).inv(),
        ensures
            final(self).sheets() == old(self).sheets(),
            final(self).span() == old(self).span(),
            final(self).raw() == old(self).raw(),
            match s {
                Step::Done(bytes) => {
                    &&& sheets_pass(old(self).sheets(), old(self).raw(), old(self).span(), old(self).sheets().len() as int)
                    &&& final(self).asked() == float_cells(old(self).sheets())
                    &&& final(self).asked() == old(self).asked()
                    &&& all_written(old(self).sheets(), old(self).raw(), final(self).saved_sheets())
                    &&& xlsx_sheets(bytes@) == saved_file(final(self).saved_sheets())
                },
                Step::Failed(e) => {
                    ||| failure_explained(old(self).sheets(), old(self).raw(), old(self).span(), e@)
                    ||| save_failed(old(self).sheets(), old(self).raw(), old(self).span(), final(self).saved_workbook(), e@)
                },
                Step::WriteNumber { row, col, bits } => {
                    &&& final(self).inv()
                    &&& final(self).pending_number() == Some((row, col, bits))
                    &&& asked_for(*old(self), *final(self), row, col, bits)
                },
            },
    {
        loop
            invariant
                self.inv(),
                self.sheets() == old(self).sheets(),
                self.span() == old(self).span(),
                self.raw() == old(self).raw(),
                self.asked() == old(self).asked(),
                old(self).pending_number() is None ==> self.pending_number() is None,
            decreases self.sheets@.len() - self.next_sheet, if self.current is Some {
                1int
            } else {
                0int
            },
        {
            if self.current.is_some() {
                match self.continue_sheet() {
                    None => {},
                    Some(s) => {
                        return s;
                    },
                }
            } else if self.next_sheet < self.sheets.len() {
                match self.start_sheet() {
                    None => {},
                    Some(s) => {
                        return s;
                    },
                }
            } else {
                return self.save();
            }
        }
    }

}

/// The bits of the float or duration at a body cell.
fn pending_bits(records: &Vec<Value>, columns: &Vec<String>, at: Position) -> (bits: u64)
    requires
        at.row_idx < records@.len(),
        at.col < columns@.len(),
    ensures
        planned_value(records@, names_of(columns@), at.row_idx as int, at.col as int) matches Some(v)
            ==> bits == float_bits(v),
{
    match &records[at.row_idx].kind {
        ValueKind::Record(cols) => match record_get(cols, &columns[at.col]) {
            Some(v) => match &v.kind {
                ValueKind::Float(b) => *b,
                ValueKind::Duration(b) => *b,
                _ => 0,
            },
            None => 0,
        },
        _ => 0,
    }
}

} // verus!
