//! What this library uses of `rust_xlsxwriter` and of `std`'s text functions,
//! with what it relies on of each: the trusted layer.

use vstd::prelude::*;
use rust_xlsxwriter::{Format, Table, Workbook, Worksheet, XlsxError};

use crate::model::DateStamp;
use crate::text::decimal;
use crate::sheet_names::{SheetNameError, sheet_name_rejection};

verus! {

#[verifier::external_type_specification]
#[verifier::external_body]
pub struct ExWorkbook(Workbook);

#[verifier::external_type_specification]
#[verifier::external_body]
pub struct ExWorksheet(Worksheet);

#[verifier::external_type_specification]
#[verifier::external_body]
pub struct ExXlsxError(XlsxError);

/// Excel's number of rows: rows are numbered from 0 to one less than this.
pub const ROW_LIMIT: u32 = 1_048_576;

/// Excel's number of columns: columns are numbered from 0 to one less than this.
pub const COL_LIMIT: u16 = 16_384;

/// The longest text a cell holds, in UTF-16 code units.
pub const TEXT_LIMIT: usize = 32_767;

/// What a worksheet cell holds.
pub enum SheetCell {
    Text(Seq<char>),
    /// A number, by the bits of its IEEE-754 `f64` encoding.
    Number(u64),
    Boolean(bool),
    /// A date and time, by the bits of its Excel serial number (an `f64`),
    /// shown in the given number format.
    DateTime(u64, Seq<char>),
}

/// The bits of the `f64` that `Worksheet::write` stores for an `i64`: the
/// integer converted with `as`, so rounded to the nearest `f64` beyond 2^53.
pub uninterp spec fn i64_number_bits(v: i64) -> u64;

/// The bits of the Excel serial number that
/// `Worksheet::write_datetime_with_format` stores for the `NaiveDateTime`
/// `secs` seconds and `nanos` nanoseconds after the Unix epoch: days since
/// 1899-12-31, counting Excel's 1900 leap day, plus the time of day to the
/// millisecond, as a fraction of a day.
pub uninterp spec fn date_serial_bits(secs: i64, nanos: u32) -> u64;

/// The cells of a worksheet, by row and column.
pub uninterp spec fn sheet_cells(ws: Worksheet) -> Map<(u32, u16), SheetCell>;

/// The Excel Tables of a worksheet, in the order they were added, each by its
/// first row, first column, last row and last column.
pub uninterp spec fn sheet_tables(ws: Worksheet) -> Seq<(u32, u16, u32, u16)>;

/// The name of a worksheet.
pub uninterp spec fn sheet_title(ws: Worksheet) -> Seq<char>;

/// The columns whose width a worksheet records, each with its width in
/// pixels and whether `Worksheet::autofit` set it.
pub uninterp spec fn column_widths(ws: Worksheet) -> Map<u16, (u32, bool)>;

/// Whether a worksheet sizes columns by the defaults, which only
/// `Worksheet::set_default_format`, `set_autofit_max_row` and
/// `set_autofit_max_width` change, and a constant-memory worksheet lacks: a
/// digit 7 pixels wide, 5 pixels of padding, columns at most 1790 pixels
/// wide, and autofit over every row, up to 1790 pixels.
pub uninterp spec fn sizes_by_default(ws: Worksheet) -> bool;

/// The pixels of a column `width` characters wide, under the default
/// metrics: a digit's width per character, plus the padding, at most the
/// widest a column may be.
pub open spec fn width_pixels(width: u16) -> u32 {
    if width as int * 7 + 5 > 1790 {
        1790
    } else {
        (width * 7 + 5) as u32
    }
}

/// Whether `Worksheet::autofit` measures a cell as taking room: a number, a
/// boolean, a date, or a text with a character other than a line break.
pub open spec fn autofit_measures(cell: SheetCell) -> bool {
    match cell {
        SheetCell::Text(t) => exists|i: int| 0 <= i < t.len() && #[trigger] t[i] != '\n' && t[i] != '\r',
        _ => true,
    }
}

/// Whether a worksheet has an autofilter of its own, which only
/// `Worksheet::autofilter` sets, apart from those of its Tables.
pub uninterp spec fn sheet_autofiltered(ws: Worksheet) -> bool;

/// A worksheet as a workbook holds it: its name, cells, Tables and recorded
/// column widths.
pub type SheetEntry = (
    Seq<char>,
    Map<(u32, u16), SheetCell>,
    Seq<(u32, u16, u32, u16)>,
    Map<u16, (u32, bool)>,
);

/// The worksheets of a workbook, in order.
pub uninterp spec fn workbook_sheets(wb: Workbook) -> Seq<SheetEntry>;

/// The worksheets an xlsx file holds, in order, in the terms of
/// `workbook_sheets`: what a reader of the file, such as `from xlsx`, finds
/// in it.
pub uninterp spec fn xlsx_sheets(bytes: Seq<u8>) -> Seq<SheetEntry>;

/// Whether `Workbook::save_to_buffer` refuses a workbook for a reason other
/// than two sheet names equal regardless of case: a part of the file too
/// large for the zip writer without its large-file option, or a chartsheet,
/// chart, defined name or Table name of its own that breaks a rule.
pub uninterp spec fn save_refused(wb: Workbook) -> bool;

/// Whether two worksheets' names are equal regardless of case.
pub open spec fn names_reused(sheets: Seq<SheetEntry>) -> bool {
    exists|i: int, j: int|
        #![trigger str_lowercase(sheets[i].0), str_lowercase(sheets[j].0)]
        0 <= i < j < sheets.len() && str_lowercase(sheets[i].0) == str_lowercase(sheets[j].0)
}

/// The worksheet a workbook without one is saved with.
pub open spec fn lone_sheet() -> SheetEntry {
    ("Sheet1"@, Map::empty(), Seq::empty(), Map::empty())
}

/// What `str::to_lowercase` returns for a text: its Unicode lowercase mapping.
pub uninterp spec fn str_lowercase(s: Seq<char>) -> Seq<char>;

/// The length of a text in UTF-16 code units: two for a character outside the
/// Basic Multilingual Plane, one for any other.
pub open spec fn utf16_len(s: Seq<char>) -> nat
    decreases s.len(),
{
    if s.len() == 0 {
        0
    } else {
        utf16_len(s.drop_last()) + if (s.last() as u32) >= 0x10000 {
            2nat
        } else {
            1nat
        }
    }
}

/// Whether a cell position lies inside Excel's grid.
pub open spec fn in_grid(row: u32, col: u16) -> bool {
    row < ROW_LIMIT && col < COL_LIMIT
}

/// Whether writing a text at a position succeeds: an empty text is ignored,
/// any other must lie inside the grid and fit a cell.
pub open spec fn text_write_ok(row: u32, col: u16, s: Seq<char>) -> bool {
    s.len() == 0 || (in_grid(row, col) && utf16_len(s) <= TEXT_LIMIT)
}

/// The cells after a text is written: an empty text leaves them as they were.
pub open spec fn with_text(cells: Map<(u32, u16), SheetCell>, row: u32, col: u16, s: Seq<char>) -> Map<
    (u32, u16),
    SheetCell,
> {
    if s.len() == 0 {
        cells
    } else {
        cells.insert((row, col), SheetCell::Text(s))
    }
}

/// Whether a Table with a header row may span a range: inside the grid,
/// with at least one row below the header.
pub open spec fn table_fits(first_row: u32, first_col: u16, last_row: u32, last_col: u16) -> bool {
    &&& first_row < last_row
    &&& last_row < ROW_LIMIT
    &&& first_col <= last_col
    &&& last_col < COL_LIMIT
}

/// The name a Table gives its column `col`: the text in the column's header
/// cell, or else `Column` and the column's number within the Table, from 1.
pub open spec fn table_header(cells: Map<(u32, u16), SheetCell>, row: u32, first_col: u16, col: u16) -> Seq<
    char,
> {
    if cells.dom().contains((row, col)) && cells[(row, col)] is Text {
        cells[(row, col)]->Text_0
    } else {
        "Column"@ + decimal((col - first_col + 1) as nat)
    }
}

/// Whether two of the names a Table gives its columns differ only in case.
pub open spec fn table_headers_clash(
    cells: Map<(u32, u16), SheetCell>,
    row: u32,
    first_col: u16,
    last_col: u16,
) -> bool {
    exists|c1: u16, c2: u16|
        #![trigger table_header(cells, row, first_col, c1), table_header(cells, row, first_col, c2)]
        first_col <= c1 < c2 <= last_col && str_lowercase(table_header(cells, row, first_col, c1))
            == str_lowercase(table_header(cells, row, first_col, c2))
}

/// The cells once a Table writes its column names across its header row.
pub open spec fn with_table_headers(
    cells: Map<(u32, u16), SheetCell>,
    row: u32,
    first_col: u16,
    last_col: u16,
) -> Map<(u32, u16), SheetCell> {
    Map::new(
        |k: (u32, u16)| cells.dom().contains(k) || (k.0 == row && first_col <= k.1 <= last_col),
        |k: (u32, u16)|
            if k.0 == row && first_col <= k.1 <= last_col {
                SheetCell::Text(table_header(cells, row, first_col, k.1))
            } else {
                cells[k]
            },
    )
}

/// Calls `Workbook::new`: a new workbook holds no worksheet.
#[verifier::external_body]
pub(crate) fn new_workbook() -> (wb: Workbook)
    ensures
        workbook_sheets(wb) =~= Seq::empty(),
{
    Workbook::new()
}

/// Calls `Worksheet::new`: a new worksheet has an empty name, holds no cell
/// and no Table, has no autofilter, records no column width, and sizes
/// columns by the default metrics.
#[verifier::external_body]
pub(crate) fn new_worksheet() -> (ws: Worksheet)
    ensures
        sheet_title(ws) =~= Seq::empty(),
        sheet_cells(ws) =~= Map::empty(),
        sheet_tables(ws) =~= Seq::empty(),
        !sheet_autofiltered(ws),
        column_widths(ws) =~= Map::empty(),
        sizes_by_default(ws),
{
    Worksheet::new()
}

/// Calls `Workbook::push_worksheet`, which appends a named worksheet to the
/// workbook as it is.
#[verifier::external_body]
pub(crate) fn push_worksheet(wb: &mut Workbook, ws: Worksheet)
    requires
        sheet_title(ws).len() > 0,
    ensures
        workbook_sheets(*final(wb)) == workbook_sheets(*old(wb)).push(
            (sheet_title(ws), sheet_cells(ws), sheet_tables(ws), column_widths(ws)),
        ),
{
    wb.push_worksheet(ws)
}

/// Calls `Workbook::save_to_buffer`, which assembles the xlsx file. It fails
/// exactly when two sheet names are equal regardless of case, or as
/// `save_refused` states. The file holds the workbook's worksheets, or a
/// lone empty `Sheet1` when it has none; its exact bytes, which record the
/// time they were made, and the workbook afterwards are left unsaid.
#[verifier::external_body]
pub(crate) fn save_to_buffer(wb: &mut Workbook) -> (r: Result<Vec<u8>, XlsxError>)
    ensures
        r is Err <==> names_reused(workbook_sheets(*old(wb))) || save_refused(*old(wb)),
        r matches Ok(bytes) ==> xlsx_sheets(bytes@) == if workbook_sheets(*old(wb)).len() == 0 {
            seq![lone_sheet()]
        } else {
            workbook_sheets(*old(wb))
        },
{
    wb.save_to_buffer()
}

/// Calls `Worksheet::set_name`, and tells its errors apart. The name is
/// refused exactly on the rules that `sheet_name_rejection` states, each with
/// its own error; cells and Tables stay as they were, and the worksheet
/// takes the name when it is not refused.
#[verifier::external_body]
pub(crate) fn set_sheet_name(ws: &mut Worksheet, name: &str) -> (r: Result<(), SheetNameError>)
    ensures
        sheet_title(*final(ws)) == if r is Ok {
            name@
        } else {
            sheet_title(*old(ws))
        },
        sheet_cells(*final(ws)) == sheet_cells(*old(ws)),
        sheet_tables(*final(ws)) == sheet_tables(*old(ws)),
        sheet_autofiltered(*final(ws)) == sheet_autofiltered(*old(ws)),
        sizes_by_default(*final(ws)) == sizes_by_default(*old(ws)),
        column_widths(*final(ws)) == column_widths(*old(ws)),
        match r {
            Ok(()) => sheet_name_rejection(name@) is None,
            Err(e) => sheet_name_rejection(name@) == Some(e),
        },
{
    match ws.set_name(name) {
        Ok(_) => Ok(()),
        Err(XlsxError::SheetnameCannotBeBlank(_)) => Err(SheetNameError::Blank),
        Err(XlsxError::SheetnameLengthExceeded(_)) => Err(SheetNameError::TooLong),
        Err(XlsxError::SheetnameContainsInvalidCharacter(_)) => Err(SheetNameError::InvalidCharacter),
        Err(XlsxError::SheetnameStartsOrEndsWithApostrophe(_)) => Err(SheetNameError::Apostrophe),
        Err(other) => Err(SheetNameError::Other(other.to_string())),
    }
}

/// Calls `Worksheet::write_string`. An empty text is ignored; any other is
/// written when the position lies in the grid and the text fits a cell, and
/// refused otherwise, leaving the cells as they were.
#[verifier::external_body]
pub(crate) fn write_text(ws: &mut Worksheet, row: u32, col: u16, s: &str) -> (r: Result<(), XlsxError>)
    ensures
        sheet_title(*final(ws)) == sheet_title(*old(ws)),
        sheet_autofiltered(*final(ws)) == sheet_autofiltered(*old(ws)),
        sizes_by_default(*final(ws)) == sizes_by_default(*old(ws)),
        column_widths(*final(ws)) == column_widths(*old(ws)),
        r is Ok <==> text_write_ok(row, col, s@),
        r is Ok ==> sheet_cells(*final(ws)) == with_text(sheet_cells(*old(ws)), row, col, s@),
        r is Err ==> sheet_cells(*final(ws)) == sheet_cells(*old(ws)),
        sheet_tables(*final(ws)) == sheet_tables(*old(ws)),
{
    ws.write_string(row, col, s).map(|_| ())
}

/// Calls `Worksheet::write` with an `i64`, which stores it as an `f64`
/// number. It succeeds exactly when the position lies in the grid.
#[verifier::external_body]
pub(crate) fn write_integer(ws: &mut Worksheet, row: u32, col: u16, v: i64) -> (r: Result<(), XlsxError>)
    ensures
        sheet_title(*final(ws)) == sheet_title(*old(ws)),
        sheet_autofiltered(*final(ws)) == sheet_autofiltered(*old(ws)),
        sizes_by_default(*final(ws)) == sizes_by_default(*old(ws)),
        column_widths(*final(ws)) == column_widths(*old(ws)),
        r is Ok <==> in_grid(row, col),
        r is Ok ==> sheet_cells(*final(ws)) == sheet_cells(*old(ws)).insert(
            (row, col),
            SheetCell::Number(i64_number_bits(v)),
        ),
        r is Err ==> sheet_cells(*final(ws)) == sheet_cells(*old(ws)),
        sheet_tables(*final(ws)) == sheet_tables(*old(ws)),
{
    ws.write(row, col, v).map(|_| ())
}

/// Calls `Worksheet::write_boolean`. It succeeds exactly when the position
/// lies in the grid.
#[verifier::external_body]
pub(crate) fn write_boolean(ws: &mut Worksheet, row: u32, col: u16, b: bool) -> (r: Result<(), XlsxError>)
    ensures
        sheet_title(*final(ws)) == sheet_title(*old(ws)),
        sheet_autofiltered(*final(ws)) == sheet_autofiltered(*old(ws)),
        sizes_by_default(*final(ws)) == sizes_by_default(*old(ws)),
        column_widths(*final(ws)) == column_widths(*old(ws)),
        r is Ok <==> in_grid(row, col),
        r is Ok ==> sheet_cells(*final(ws)) == sheet_cells(*old(ws)).insert((row, col), SheetCell::Boolean(b)),
        r is Err ==> sheet_cells(*final(ws)) == sheet_cells(*old(ws)),
        sheet_tables(*final(ws)) == sheet_tables(*old(ws)),
{
    ws.write_boolean(row, col, b).map(|_| ())
}

/// Calls `Worksheet::write_datetime_with_format` with the instant as a
/// `chrono::NaiveDateTime` in UTC, and a `Format` whose number format is the
/// given text. Every `DateStamp` lies in the range that
/// `DateTime::from_timestamp` accepts, so the conversion cannot fail. It
/// succeeds exactly when the position lies in the grid.
#[verifier::external_body]
pub(crate) fn write_date(
    ws: &mut Worksheet,
    row: u32,
    col: u16,
    stamp: DateStamp,
    num_format: &str,
) -> (r: Result<(), XlsxError>)
    ensures
        sheet_title(*final(ws)) == sheet_title(*old(ws)),
        sheet_autofiltered(*final(ws)) == sheet_autofiltered(*old(ws)),
        sizes_by_default(*final(ws)) == sizes_by_default(*old(ws)),
        column_widths(*final(ws)) == column_widths(*old(ws)),
        r is Ok <==> in_grid(row, col),
        r is Ok ==> sheet_cells(*final(ws)) == sheet_cells(*old(ws)).insert(
            (row, col),
            SheetCell::DateTime(date_serial_bits(stamp.spec_secs(), stamp.spec_nanos()), num_format@),
        ),
        r is Err ==> sheet_cells(*final(ws)) == sheet_cells(*old(ws)),
        sheet_tables(*final(ws)) == sheet_tables(*old(ws)),
{
    let instant = chrono::DateTime::from_timestamp(stamp.secs(), stamp.nanos()).unwrap();
    let format = Format::new().set_num_format(num_format);
    ws.write_datetime_with_format(row, col, instant.naive_utc(), &format).map(|_| ())
}

/// Calls `Worksheet::add_table` with `Table::new()`: a Table with a header
/// row, an auto-filter and banded rows, and no name of its own. It refuses a
/// range outside the grid or without a row below the header, and column
/// names that differ only in case; the name of a column is the text in its
/// header cell, or else `Column` and its number within the Table. It then
/// writes those names across the header row and records the Table. It can
/// also fail when the range overlaps an earlier Table or the worksheet's own
/// autofilter, after the header is written: on a worksheet with neither, it
/// fails exactly on the refusals above, and leaves it as it was. Formats and
/// the Table's style are left unsaid.
#[verifier::external_body]
pub(crate) fn add_table(
    ws: &mut Worksheet,
    first_row: u32,
    first_col: u16,
    last_row: u32,
    last_col: u16,
) -> (r: Result<(), XlsxError>)
    ensures
        sheet_title(*final(ws)) == sheet_title(*old(ws)),
        sheet_autofiltered(*final(ws)) == sheet_autofiltered(*old(ws)),
        sizes_by_default(*final(ws)) == sizes_by_default(*old(ws)),
        column_widths(*final(ws)) == column_widths(*old(ws)),
        r is Ok ==> {
            &&& table_fits(first_row, first_col, last_row, last_col)
            &&& !table_headers_clash(sheet_cells(*old(ws)), first_row, first_col, last_col)
            &&& sheet_tables(*final(ws)) == sheet_tables(*old(ws)).push(
                (first_row, first_col, last_row, last_col),
            )
            &&& sheet_cells(*final(ws)) == with_table_headers(
                sheet_cells(*old(ws)),
                first_row,
                first_col,
                last_col,
            )
        },
        r is Err ==> sheet_tables(*final(ws)) == sheet_tables(*old(ws)),
        sheet_tables(*old(ws)).len() == 0 && !sheet_autofiltered(*old(ws)) ==> {
            &&& r is Ok <==> table_fits(first_row, first_col, last_row, last_col) && !table_headers_clash(
                sheet_cells(*old(ws)),
                first_row,
                first_col,
                last_col,
            )
            &&& r is Err ==> sheet_cells(*final(ws)) == sheet_cells(*old(ws))
        },
{
    ws.add_table(first_row, first_col, last_row, last_col, &Table::new()).map(|_| ())
}

/// Calls `Worksheet::set_column_width` with a whole number of character
/// widths. It fails exactly when the column lies outside the grid; cells and
/// Tables stay as they were. A width above zero is recorded at its column,
/// in pixels, as set by hand; what a width of zero (a hidden column)
/// records, or a width under other metrics, is left unsaid.
#[verifier::external_body]
pub(crate) fn set_column_width(ws: &mut Worksheet, col: u16, width: u16) -> (r: Result<(), XlsxError>)
    ensures
        sheet_title(*final(ws)) == sheet_title(*old(ws)),
        sheet_autofiltered(*final(ws)) == sheet_autofiltered(*old(ws)),
        sizes_by_default(*final(ws)) == sizes_by_default(*old(ws)),
        r is Ok <==> col < COL_LIMIT,
        sheet_cells(*final(ws)) == sheet_cells(*old(ws)),
        sheet_tables(*final(ws)) == sheet_tables(*old(ws)),
        r is Err ==> column_widths(*final(ws)) == column_widths(*old(ws)),
        r is Ok && width > 0 && sizes_by_default(*old(ws)) ==> column_widths(*final(ws)) == column_widths(
            *old(ws),
        ).insert(col, (width_pixels(width), false)),
{
    ws.set_column_width(col, width).map(|_| ())
}

/// Calls `Worksheet::autofit`, which widens columns to fit what they hold
/// and never narrows a column whose width was set by hand. Under the
/// defaults, every column holding a cell it measures then records a width.
/// Cells and Tables stay as they were; the widths it computes are left
/// unsaid.
#[verifier::external_body]
pub(crate) fn autofit(ws: &mut Worksheet)
    ensures
        sheet_title(*final(ws)) == sheet_title(*old(ws)),
        sheet_autofiltered(*final(ws)) == sheet_autofiltered(*old(ws)),
        sizes_by_default(*final(ws)) == sizes_by_default(*old(ws)),
        sheet_cells(*final(ws)) == sheet_cells(*old(ws)),
        sheet_tables(*final(ws)) == sheet_tables(*old(ws)),
        forall|c: u16|
            #![trigger column_widths(*old(ws)).dom().contains(c)]
            column_widths(*old(ws)).dom().contains(c) && !column_widths(*old(ws))[c].1 ==> {
                &&& column_widths(*final(ws)).dom().contains(c)
                &&& column_widths(*final(ws))[c].0 >= column_widths(*old(ws))[c].0
            },
        sizes_by_default(*old(ws)) ==> forall|k: (u32, u16)|
            #![trigger sheet_cells(*old(ws)).dom().contains(k)]
            sheet_cells(*old(ws)).dom().contains(k) && autofit_measures(sheet_cells(*old(ws))[k])
                ==> column_widths(*final(ws)).dom().contains(k.1),
{
    ws.autofit();
}

/// Calls `XlsxError`'s `to_string`: the writer's own description of the error.
/// Nothing is claimed of the text.
#[verifier::external_body]
pub(crate) fn error_text(e: &XlsxError) -> (s: String) {
    e.to_string()
}

/// Calls `str::to_lowercase`.
#[verifier::external_body]
pub(crate) fn to_lowercase(s: &str) -> (r: String)
    ensures
        r@ == str_lowercase(s@),
{
    s.to_lowercase()
}

/// Calls `String::push`, which appends one character.
#[verifier::external_body]
pub(crate) fn push_char(s: &mut String, c: char)
    ensures
        final(s)@ == old(s)@.push(c),
{
    s.push(c)
}

} // verus!
