//! Writing one table into one worksheet: its header row, its cells, and the
//! Excel Table, column widths and autofit that finish it.

use vstd::prelude::*;
use vstd::string::StringExecFns;
use rust_xlsxwriter::Worksheet;

use crate::model::{error_view, ErrorView, LabeledError, Span, Value, ValueKind};
use crate::text::decimal;
use crate::xlsx::{
    add_table, autofit, autofit_measures, column_widths, date_serial_bits, sizes_by_default, width_pixels, error_text, i64_number_bits, in_grid, set_column_width, sheet_autofiltered, sheet_cells, sheet_tables,
    sheet_title, str_lowercase, table_fits, table_header, table_headers_clash, text_write_ok, with_table_headers,
    utf16_len, with_text, write_boolean, ROW_LIMIT, TEXT_LIMIT, write_date, write_integer, write_text, SheetCell, COL_LIMIT,
};

verus! {

/// How a date cell is rendered.
pub const DATE_NUM_FORMAT: &'static str = "yyyy-mm-dd hh:mm:ss";

/// The width a date column needs: the length of the format, plus one.
/// `autofit` sizes a date cell from a fixed guess, blind to the format, so
/// the width is claimed before it runs; it only widens a column whose width
/// was set, never narrows it.
pub fn date_column_width() -> (w: u16)
    ensures
        w == DATE_NUM_FORMAT@.len() + 1,
        w == 20,
{
    proof {
        reveal_strlit("yyyy-mm-dd hh:mm:ss");
    }
    let chars = DATE_NUM_FORMAT.unicode_len();
    (chars + 1) as u16
}

/// An error that says what failed and where, with the writer's own words as
/// its label.
pub open spec fn is_failure(e: ErrorView, msg: Seq<char>, span: Span) -> bool {
    e.msg == msg && e.span == span && e.help is None
}

/// The error for a table with more rows than row numbers.
pub open spec fn too_many_rows(span: Span) -> ErrorView {
    error_view("Too many rows"@, "exceeds u32 range"@, span, None)
}

/// A text as a cell: an empty text leaves the cell empty.
pub open spec fn text_cell(s: Seq<char>) -> Option<SheetCell> {
    if s.len() == 0 {
        None
    } else {
        Some(SheetCell::Text(s))
    }
}

/// What a cell holds once a value is written to it: texts as texts;
/// integers and file sizes as numbers, the nearest `f64`; floats and
/// durations (in seconds) as numbers; booleans as booleans; dates as Excel
/// serial numbers shown as `DATE_NUM_FORMAT`; nothing as an empty cell; and
/// any other value as its text.
pub open spec fn written_cell(v: Value) -> Option<SheetCell> {
    match v.kind {
        ValueKind::String(s) => text_cell(s@),
        ValueKind::Int(i) => Some(SheetCell::Number(i64_number_bits(i))),
        ValueKind::Filesize(i) => Some(SheetCell::Number(i64_number_bits(i))),
        ValueKind::Float(b) => Some(SheetCell::Number(b)),
        ValueKind::Duration(b) => Some(SheetCell::Number(b)),
        ValueKind::Bool(b) => Some(SheetCell::Boolean(b)),
        ValueKind::Date(d) => Some(
            SheetCell::DateTime(date_serial_bits(d.spec_secs(), d.spec_nanos()), DATE_NUM_FORMAT@),
        ),
        ValueKind::Nothing => None,
        ValueKind::List(_) => text_cell(v.text@),
        ValueKind::Record(_) => text_cell(v.text@),
        ValueKind::Other => text_cell(v.text@),
    }
}

/// Whether a value is a float or a duration: a number whose writing, being
/// floating point, is left to the caller.
pub open spec fn is_float_cell(v: Value) -> bool {
    v.kind is Float || v.kind is Duration
}

/// The bits of a float cell's number.
pub open spec fn float_bits(v: Value) -> u64 {
    match v.kind {
        ValueKind::Float(b) => b,
        ValueKind::Duration(b) => b,
        _ => 0,
    }
}

/// Whether writing a value at a position succeeds: nothing and empty texts
/// always do; any other value needs a position inside the grid, and a text
/// must fit a cell.
pub open spec fn cell_write_ok(row: u32, col: u16, v: Value) -> bool {
    match v.kind {
        ValueKind::String(s) => text_write_ok(row, col, s@),
        ValueKind::Nothing => true,
        ValueKind::Int(_) => in_grid(row, col),
        ValueKind::Filesize(_) => in_grid(row, col),
        ValueKind::Float(_) => in_grid(row, col),
        ValueKind::Duration(_) => in_grid(row, col),
        ValueKind::Bool(_) => in_grid(row, col),
        ValueKind::Date(_) => in_grid(row, col),
        ValueKind::List(_) => text_write_ok(row, col, v.text@),
        ValueKind::Record(_) => text_write_ok(row, col, v.text@),
        ValueKind::Other => text_write_ok(row, col, v.text@),
    }
}

/// The cells once a value is written at a position.
pub open spec fn with_cell(cells: Map<(u32, u16), SheetCell>, row: u32, col: u16, v: Value) -> Map<
    (u32, u16),
    SheetCell,
> {
    match written_cell(v) {
        Some(c) => cells.insert((row, col), c),
        None => cells,
    }
}

/// Whether a write of a typed cell at (row, col) went as the writer does
/// it: it succeeds exactly inside the grid, and then the cell holds `cell`.
pub open spec fn typed_write(
    before: Map<(u32, u16), SheetCell>,
    after: Map<(u32, u16), SheetCell>,
    ok: bool,
    row: u32,
    col: u16,
    cell: SheetCell,
) -> bool {
    &&& ok <==> row < ROW_LIMIT && col < COL_LIMIT
    &&& ok ==> after == before.insert((row, col), cell)
}

/// Whether a write of a text at (row, col) went as the writer does it: an
/// empty text succeeds and leaves the cells as they were; any other
/// succeeds exactly inside the grid and when it fits a cell, and then the
/// cell holds the text.
pub open spec fn text_write(
    before: Map<(u32, u16), SheetCell>,
    after: Map<(u32, u16), SheetCell>,
    ok: bool,
    row: u32,
    col: u16,
    t: Seq<char>,
) -> bool {
    &&& t.len() == 0 ==> ok && after == before
    &&& t.len() > 0 ==> (ok <==> row < ROW_LIMIT && col < COL_LIMIT && utf16_len(t) <= TEXT_LIMIT)
    &&& t.len() > 0 && ok ==> after == before.insert((row, col), SheetCell::Text(t))
}

/// What a sheet's content says of each kind of value is what the writer
/// does with it: an integer or file size is the nearest `f64` number, a
/// boolean a boolean, a date an Excel date shown as `DATE_NUM_FORMAT`, a
/// text or a list, record or other value with a text that text, nothing an
/// empty cell; and each write fails exactly where the writer refuses it.
pub proof fn lemma_values_become_cells(v: Value, cells: Map<(u32, u16), SheetCell>, row: u32, col: u16)
    ensures
        v.kind matches ValueKind::Int(i) ==> typed_write(
            cells,
            with_cell(cells, row, col, v),
            cell_write_ok(row, col, v),
            row,
            col,
            SheetCell::Number(i64_number_bits(i)),
        ),
        v.kind matches ValueKind::Filesize(i) ==> typed_write(
            cells,
            with_cell(cells, row, col, v),
            cell_write_ok(row, col, v),
            row,
            col,
            SheetCell::Number(i64_number_bits(i)),
        ),
        v.kind matches ValueKind::Bool(b) ==> typed_write(
            cells,
            with_cell(cells, row, col, v),
            cell_write_ok(row, col, v),
            row,
            col,
            SheetCell::Boolean(b),
        ),
        v.kind matches ValueKind::Date(d) ==> typed_write(
            cells,
            with_cell(cells, row, col, v),
            cell_write_ok(row, col, v),
            row,
            col,
            SheetCell::DateTime(date_serial_bits(d.spec_secs(), d.spec_nanos()), DATE_NUM_FORMAT@),
        ),
        v.kind matches ValueKind::String(t) ==> text_write(
            cells,
            with_cell(cells, row, col, v),
            cell_write_ok(row, col, v),
            row,
            col,
            t@,
        ),
        v.kind is List || v.kind is Record || v.kind is Other ==> text_write(
            cells,
            with_cell(cells, row, col, v),
            cell_write_ok(row, col, v),
            row,
            col,
            v.text@,
        ),
        v.kind is Nothing ==> cell_write_ok(row, col, v) && with_cell(cells, row, col, v) == cells,
        v.kind matches ValueKind::Float(b) ==> written_cell(v) == Some(SheetCell::Number(b)),
        v.kind matches ValueKind::Duration(b) ==> written_cell(v) == Some(SheetCell::Number(b)),
{
}

/// Writes one value to one cell. Floats and durations are not written here:
/// their writing is floating point, and falls to the caller.
pub fn write_cell(sheet: &mut Worksheet, row: u32, col: u16, value: &Value) -> (r: Result<(), LabeledError>)
    requires
        !is_float_cell(*value),
    ensures
        r is Ok <==> cell_write_ok(row, col, *value),
        r is Ok ==> sheet_cells(*final(sheet)) == with_cell(sheet_cells(*old(sheet)), row, col, *value),
        r matches Err(e) ==> is_failure(e@, "Failed to write cell"@, value.span),
        r is Err ==> sheet_cells(*final(sheet)) == sheet_cells(*old(sheet)),
        sheet_tables(*final(sheet)) == sheet_tables(*old(sheet)),
        sheet_title(*final(sheet)) == sheet_title(*old(sheet)),
        sheet_autofiltered(*final(sheet)) == sheet_autofiltered(*old(sheet)),
        sizes_by_default(*final(sheet)) == sizes_by_default(*old(sheet)),
        column_widths(*final(sheet)) == column_widths(*old(sheet)),
        value.kind matches ValueKind::Int(i) ==> typed_write(
            sheet_cells(*old(sheet)),
            sheet_cells(*final(sheet)),
            r is Ok,
            row,
            col,
            SheetCell::Number(i64_number_bits(i)),
        ),
        value.kind matches ValueKind::Filesize(i) ==> typed_write(
            sheet_cells(*old(sheet)),
            sheet_cells(*final(sheet)),
            r is Ok,
            row,
            col,
            SheetCell::Number(i64_number_bits(i)),
        ),
        value.kind matches ValueKind::Bool(b) ==> typed_write(
            sheet_cells(*old(sheet)),
            sheet_cells(*final(sheet)),
            r is Ok,
            row,
            col,
            SheetCell::Boolean(b),
        ),
        value.kind matches ValueKind::Date(d) ==> typed_write(
            sheet_cells(*old(sheet)),
            sheet_cells(*final(sheet)),
            r is Ok,
            row,
            col,
            SheetCell::DateTime(date_serial_bits(d.spec_secs(), d.spec_nanos()), DATE_NUM_FORMAT@),
        ),
        value.kind matches ValueKind::String(t) ==> text_write(
            sheet_cells(*old(sheet)),
            sheet_cells(*final(sheet)),
            r is Ok,
            row,
            col,
            t@,
        ),
        value.kind is List || value.kind is Record || value.kind is Other ==> text_write(
            sheet_cells(*old(sheet)),
            sheet_cells(*final(sheet)),
            r is Ok,
            row,
            col,
            value.text@,
        ),
        value.kind is Nothing ==> r is Ok && sheet_cells(*final(sheet)) == sheet_cells(*old(sheet)),
{
    let written = match &value.kind {
        ValueKind::String(s) => write_text(sheet, row, col, s.as_str()),
        ValueKind::Int(i) => write_integer(sheet, row, col, *i),
        ValueKind::Filesize(i) => write_integer(sheet, row, col, *i),
        ValueKind::Bool(b) => write_boolean(sheet, row, col, *b),
        ValueKind::Date(d) => write_date(sheet, row, col, *d, DATE_NUM_FORMAT),
        ValueKind::Nothing => Ok(()),
        ValueKind::Float(_) => Ok(()),
        ValueKind::Duration(_) => Ok(()),
        ValueKind::List(_) => write_text(sheet, row, col, value.text.as_str()),
        ValueKind::Record(_) => write_text(sheet, row, col, value.text.as_str()),
        ValueKind::Other => write_text(sheet, row, col, value.text.as_str()),
    };
    match written {
        Ok(()) => Ok(()),
        Err(e) => Err(LabeledError::new("Failed to write cell".to_owned(), error_text(&e), value.span)),
    }
}

/// The value of the column with the given name in a record's columns: the
/// last one of that name, as records look names up.
pub open spec fn lookup(cols: Seq<(String, Value)>, name: Seq<char>) -> Option<Value>
    decreases cols.len(),
{
    if cols.len() == 0 {
        None
    } else if cols.last().0@ == name {
        Some(cols.last().1)
    } else {
        lookup(cols.drop_last(), name)
    }
}

/// Looks a column up by name in a record.
pub fn record_get<'a>(cols: &'a Vec<(String, Value)>, name: &String) -> (r: Option<&'a Value>)
    ensures
        match r {
            Some(v) => lookup(cols@, name@) == Some(*v),
            None => lookup(cols@, name@) is None,
        },
{
    let mut i = cols.len();
    proof {
        assert(cols@.take(i as int) =~= cols@);
    }
    while i > 0
        invariant
            i <= cols@.len(),
            lookup(cols@, name@) == lookup(cols@.take(i as int), name@),
        decreases i,
    {
        proof {
            assert(cols@.take(i as int).drop_last() =~= cols@.take(i - 1));
        }
        if cols[i - 1].0 == *name {
            return Some(&cols[i - 1].1);
        }
        i = i - 1;
    }
    None
}

/// The names of a record's columns, in order.
pub fn column_names(cols: &Vec<(String, Value)>) -> (r: Vec<String>)
    ensures
        r@.len() == cols@.len(),
        forall|i: int| 0 <= i < cols@.len() ==> (#[trigger] r@[i])@ == cols@[i].0@,
{
    let mut r: Vec<String> = Vec::new();
    let mut i: usize = 0;
    while i < cols.len()
        invariant
            i <= cols@.len(),
            r@.len() == i,
            forall|j: int| 0 <= j < i ==> (#[trigger] r@[j])@ == cols@[j].0@,
        decreases cols@.len() - i,
    {
        r.push(cols[i].0.clone());
        i = i + 1;
    }
    r
}

/// The most columns a table may have: column numbers are `u16`.
pub const MAX_COLUMNS: usize = 65_535;

/// What a sheet's value is made of, once it is known to be a table.
pub enum SheetShape<'a> {
    /// A table without rows: the sheet stays empty.
    Empty,
    /// A table with rows, and the names of its first record's columns.
    Rows { records: &'a Vec<Value>, columns: Vec<String> },
}

/// Why a sheet's value cannot be written as a table, if it cannot: it is no
/// list; its first row is no record; or it has more columns than `u16`
/// numbers.
pub open spec fn shape_error(value: Value, span: Span) -> Option<ErrorView> {
    match value.kind {
        ValueKind::List(records) => if records@.len() == 0 {
            None
        } else {
            match records@[0].kind {
                ValueKind::Record(cols) => if cols@.len() > MAX_COLUMNS {
                    Some(error_view("Too many columns"@, "exceeds u16 range"@, span, None))
                } else {
                    None
                },
                _ => Some(
                    error_view(
                        "Expected records in table"@,
                        "got "@ + records@[0].type_desc@,
                        records@[0].span,
                        None,
                    ),
                ),
            }
        },
        _ => Some(
            error_view(
                "Expected a table (list of records)"@,
                "got "@ + value.type_desc@,
                value.span,
                None,
            ),
        ),
    }
}

/// The names of the columns a sheet is written with: those of its first record.
pub open spec fn sheet_columns(records: Seq<Value>) -> Seq<Seq<char>> {
    match records[0].kind {
        ValueKind::Record(cols) => cols@.map_values(|p: (String, Value)| p.0@),
        _ => Seq::empty(),
    }
}

/// Tells whether a sheet's value is a table, and takes its rows and columns.
pub fn sheet_shape<'a>(value: &'a Value, span: Span) -> (r: Result<SheetShape<'a>, LabeledError>)
    ensures
        match r {
            Err(e) => shape_error(*value, span) == Some(e@),
            Ok(SheetShape::Empty) => shape_error(*value, span) is None && value.kind is List
                && value.kind->List_0@.len() == 0,
            Ok(SheetShape::Rows { records, columns }) => {
                &&& shape_error(*value, span) is None
                &&& value.kind == ValueKind::List(*records)
                &&& records@.len() > 0
                &&& columns@.len() <= MAX_COLUMNS
                &&& names_of(columns@) =~= sheet_columns(records@)
            },
        },
{
    match &value.kind {
        ValueKind::List(records) => {
            if records.len() == 0 {
                return Ok(SheetShape::Empty);
            }
            match &records[0].kind {
                ValueKind::Record(cols) => {
                    if cols.len() > MAX_COLUMNS {
                        return Err(
                            LabeledError::new(
                                "Too many columns".to_owned(),
                                "exceeds u16 range".to_owned(),
                                span,
                            ),
                        );
                    }
                    let columns = column_names(cols);
                    Ok(SheetShape::Rows { records, columns })
                },
                _ => {
                    let mut label = "got ".to_owned();
                    label.append(records[0].type_desc.as_str());
                    Err(
                        LabeledError::new(
                            "Expected records in table".to_owned(),
                            label,
                            records[0].span,
                        ),
                    )
                },
            }
        },
        _ => {
            let mut label = "got ".to_owned();
            label.append(value.type_desc.as_str());
            Err(LabeledError::new("Expected a table (list of records)".to_owned(), label, value.span))
        },
    }
}

/// The cells once the first `n` column names are written to the header row.
pub open spec fn with_headers(cells: Map<(u32, u16), SheetCell>, names: Seq<Seq<char>>, n: nat) -> Map<
    (u32, u16),
    SheetCell,
>
    decreases n,
{
    if n == 0 {
        cells
    } else {
        with_text(with_headers(cells, names, (n - 1) as nat), 0, (n - 1) as u16, names[n - 1])
    }
}

/// Whether every column name can be written to the header row.
pub open spec fn headers_fit(names: Seq<Seq<char>>) -> bool {
    forall|c: int| 0 <= c < names.len() ==> text_write_ok(0, c as u16, #[trigger] names[c])
}

/// Writes the column names to the first row.
pub fn write_headers(sheet: &mut Worksheet, columns: &Vec<String>, span: Span) -> (r: Result<(), LabeledError>)
    requires
        columns@.len() <= MAX_COLUMNS,
    ensures
        r is Ok <==> headers_fit(names_of(columns@)),
        r is Ok ==> sheet_cells(*final(sheet)) == with_headers(
            sheet_cells(*old(sheet)),
            names_of(columns@),
            columns@.len(),
        ),
        r matches Err(e) ==> is_failure(e@, "Failed to write header"@, span),
        sheet_tables(*final(sheet)) == sheet_tables(*old(sheet)),
        sheet_title(*final(sheet)) == sheet_title(*old(sheet)),
        sheet_autofiltered(*final(sheet)) == sheet_autofiltered(*old(sheet)),
        sizes_by_default(*final(sheet)) == sizes_by_default(*old(sheet)),
        column_widths(*final(sheet)) == column_widths(*old(sheet)),
{
    let mut c: usize = 0;
    while c < columns.len()
        invariant
            c <= columns@.len(),
            columns@.len() <= MAX_COLUMNS,
            forall|c2: int| 0 <= c2 < c ==> text_write_ok(0, c2 as u16, (#[trigger] columns@[c2])@),
            sheet_cells(*sheet) == with_headers(sheet_cells(*old(sheet)), names_of(columns@), c as nat),
            sheet_tables(*sheet) == sheet_tables(*old(sheet)),
            sheet_title(*sheet) == sheet_title(*old(sheet)),
            sheet_autofiltered(*sheet) == sheet_autofiltered(*old(sheet)),
            sizes_by_default(*sheet) == sizes_by_default(*old(sheet)),
            column_widths(*sheet) == column_widths(*old(sheet)),
        decreases columns@.len() - c,
    {
        match write_text(sheet, 0, c as u16, columns[c].as_str()) {
            Ok(()) => {},
            Err(e) => {
                proof {
                    assert(names_of(columns@)[c as int] == columns@[c as int]@);
                }
                return Err(LabeledError::new("Failed to write header".to_owned(), error_text(&e), span));
            },
        }
        c = c + 1;
    }
    Ok(())
}

/// A cell of a table's body: the index of its record and of its column.
#[derive(Clone, Copy, Debug, PartialEq, Eq, Structural)]
pub struct Position {
    pub row_idx: usize,
    pub col: usize,
}

/// The names of columns, as texts.
pub open spec fn names_of(columns: Seq<String>) -> Seq<Seq<char>> {
    columns.map_values(|c: String| c@)
}

/// The value written to the cell of record `r`, column `c`: that record's
/// value under the column's name, if the row is a record and has the column.
pub open spec fn planned_value(records: Seq<Value>, names: Seq<Seq<char>>, r: int, c: int) -> Option<Value> {
    if 0 <= r < records.len() && 0 <= c < names.len() {
        match records[r].kind {
            ValueKind::Record(cols) => lookup(cols@, names[c]),
            _ => None,
        }
    } else {
        None
    }
}

/// Whether cell (r, c) comes before cell (pr, pc), row by row.
pub open spec fn before(r: int, c: int, pr: int, pc: int) -> bool {
    r < pr || (r == pr && c < pc)
}

/// Whether cell (r, c) lies from cell (fr, fc) on and before cell (tr, tc).
pub open spec fn in_stretch(r: int, c: int, fr: int, fc: int, tr: int, tc: int) -> bool {
    !before(r, c, fr, fc) && before(r, c, tr, tc)
}

/// What this library writes to the body cell of record `r`, column `c`: the
/// planned value's cell, except for floats and durations, which the caller
/// writes.
pub open spec fn library_cell(records: Seq<Value>, names: Seq<Seq<char>>, r: int, c: int) -> Option<SheetCell> {
    match planned_value(records, names, r, c) {
        Some(v) => if is_float_cell(v) {
            None
        } else {
            written_cell(v)
        },
        None => None,
    }
}

/// What this library writes at worksheet position `k` while filling the
/// body from cell (fr, fc) up to cell (tr, tc): body row `r` is worksheet row `r + 1`.
pub open spec fn stretch_cell(
    records: Seq<Value>,
    names: Seq<Seq<char>>,
    fr: int,
    fc: int,
    tr: int,
    tc: int,
    k: (u32, u16),
) -> Option<SheetCell> {
    if k.0 >= 1 && in_stretch(k.0 - 1, k.1 as int, fr, fc, tr, tc) {
        library_cell(records, names, k.0 - 1, k.1 as int)
    } else {
        None
    }
}

/// The cells once the body is filled from cell (fr, fc) up to cell (tr, tc).
pub open spec fn filled(
    cells: Map<(u32, u16), SheetCell>,
    records: Seq<Value>,
    names: Seq<Seq<char>>,
    fr: int,
    fc: int,
    tr: int,
    tc: int,
) -> Map<(u32, u16), SheetCell> {
    Map::new(
        |k: (u32, u16)|
            cells.dom().contains(k) || stretch_cell(records, names, fr, fc, tr, tc, k) is Some,
        |k: (u32, u16)|
            if stretch_cell(records, names, fr, fc, tr, tc, k) is Some {
                stretch_cell(records, names, fr, fc, tr, tc, k).unwrap()
            } else {
                cells[k]
            },
    )
}

/// Whether a date stands in column `c` of the stretch from cell (fr, fc) up to cell (tr, tc).
pub open spec fn date_in_stretch(
    records: Seq<Value>,
    names: Seq<Seq<char>>,
    fr: int,
    fc: int,
    tr: int,
    tc: int,
    c: int,
) -> bool {
    exists|r: int|
        {
            &&& in_stretch(r, c, fr, fc, tr, tc)
            &&& #[trigger] planned_value(records, names, r, c) matches Some(v)
            &&& v.kind is Date
        }
}

/// A date under a column, in any record of a stretch, marks that column as
/// one that received a date in the stretch.
pub proof fn lemma_any_date_marks_its_column(
    records: Seq<Value>,
    names: Seq<Seq<char>>,
    fr: int,
    fc: int,
    tr: int,
    tc: int,
    r: int,
    c: int,
)
    requires
        in_stretch(r, c, fr, fc, tr, tc),
        planned_value(records, names, r, c) matches Some(v) && v.kind is Date,
    ensures
        0 <= c < names.len(),
        0 <= r < records.len(),
        date_in_stretch(records, names, fr, fc, tr, tc, c),
{
}

/// Whether every cell this library writes in the stretch from cell
/// (fr, fc) up to cell (tr, tc) fits: its row has a number and its write
/// succeeds.
pub open spec fn stretch_fits(
    records: Seq<Value>,
    names: Seq<Seq<char>>,
    fr: int,
    fc: int,
    tr: int,
    tc: int,
) -> bool {
    forall|r: int, c: int|
        #![trigger planned_value(records, names, r, c)]
        in_stretch(r, c, fr, fc, tr, tc) && planned_value(records, names, r, c) is Some && !is_float_cell(
            planned_value(records, names, r, c).unwrap(),
        ) ==> r + 1 <= u32::MAX && cell_write_ok(
            (r + 1) as u32,
            c as u16,
            planned_value(records, names, r, c).unwrap(),
        )
}

/// Whether no float or duration stands in the stretch from cell (fr, fc)
/// up to cell (tr, tc).
pub open spec fn no_float_in_stretch(
    records: Seq<Value>,
    names: Seq<Seq<char>>,
    fr: int,
    fc: int,
    tr: int,
    tc: int,
) -> bool {
    forall|r: int, c: int|
        #![trigger planned_value(records, names, r, c)]
        in_stretch(r, c, fr, fc, tr, tc) && planned_value(records, names, r, c) is Some ==> !is_float_cell(
            planned_value(records, names, r, c).unwrap(),
        )
}

/// Whether the value at cell (r, c) of a table's body is one this library
/// writes, in a row that has a number, and its write fails.
pub open spec fn cell_fails(records: Seq<Value>, names: Seq<Seq<char>>, r: int, c: int) -> bool {
    &&& planned_value(records, names, r, c) matches Some(v)
    &&& !is_float_cell(v)
    &&& r + 1 <= u32::MAX
    &&& !cell_write_ok((r + 1) as u32, c as u16, v)
}

/// Two stretches that meet make one: what holds of both holds of the whole.
pub proof fn lemma_stretches_join(
    records: Seq<Value>,
    names: Seq<Seq<char>>,
    fr: int,
    fc: int,
    mr: int,
    mc: int,
    tr: int,
    tc: int,
)
    requires
        !before(mr, mc, fr, fc),
        !before(tr, tc, mr, mc),
    ensures
        stretch_fits(records, names, fr, fc, mr, mc) && stretch_fits(records, names, mr, mc, tr, tc)
            ==> stretch_fits(records, names, fr, fc, tr, tc),
        forall|c: int|
            #![trigger date_in_stretch(records, names, fr, fc, tr, tc, c)]
            date_in_stretch(records, names, fr, fc, tr, tc, c) == (date_in_stretch(
                records,
                names,
                fr,
                fc,
                mr,
                mc,
                c,
            ) || date_in_stretch(records, names, mr, mc, tr, tc, c)),
{
    assert forall|c: int| #[trigger]
        date_in_stretch(records, names, fr, fc, tr, tc, c) implies (date_in_stretch(
            records,
            names,
            fr,
            fc,
            mr,
            mc,
            c,
        ) || date_in_stretch(records, names, mr, mc, tr, tc, c)) by {
        let r = choose|r: int|
            {
                &&& in_stretch(r, c, fr, fc, tr, tc)
                &&& #[trigger] planned_value(records, names, r, c) matches Some(v)
                &&& v.kind is Date
            };
        if before(r, c, mr, mc) {
            assert(in_stretch(r, c, fr, fc, mr, mc));
        } else {
            assert(in_stretch(r, c, mr, mc, tr, tc));
        }
    }
}

/// Where filling the body stopped.
pub enum FillStop {
    /// At a float or duration: the caller writes the number with these bits
    /// at (`row`, `col`), then filling goes on after `at`.
    Number { at: Position, row: u32, col: u16, bits: u64, span: Span },
    /// The body is filled.
    Finished,
    Failed(LabeledError),
}

/// Filling one cell further adds that cell's library value, if it has one.
pub proof fn lemma_filled_step(
    cells0: Map<(u32, u16), SheetCell>,
    records: Seq<Value>,
    names: Seq<Seq<char>>,
    fr: int,
    fc: int,
    r: int,
    c: int,
)
    requires
        !before(r, c, fr, fc),
        0 <= r,
        0 <= c,
        r + 1 <= u32::MAX,
        c <= u16::MAX,
    ensures
        filled(cells0, records, names, fr, fc, r, c + 1) == match library_cell(
            records,
            names,
            r,
            c,
        ) {
            Some(cell) => filled(cells0, records, names, fr, fc, r, c).insert(
                ((r + 1) as u32, c as u16),
                cell,
            ),
            None => filled(cells0, records, names, fr, fc, r, c),
        },
{
    let a = filled(cells0, records, names, fr, fc, r, c + 1);
    let b = filled(cells0, records, names, fr, fc, r, c);
    let key = ((r + 1) as u32, c as u16);
    assert(key.0 - 1 == r && key.1 as int == c);
    assert forall|k: (u32, u16)|
        k != key implies stretch_cell(records, names, fr, fc, r, c + 1, k) == stretch_cell(
            records,
            names,
            fr,
            fc,
            r,
            c,
            k,
        ) by {}
    match library_cell(records, names, r, c) {
        Some(cell) => {
            assert(a =~= b.insert(key, cell));
        },
        None => {
            assert(a =~= b);
        },
    }
}

/// Past a record's last column, or in a row that is no record, filling goes
/// on to the next row's first cell with nothing added.
proof fn lemma_filled_next_row(
    cells0: Map<(u32, u16), SheetCell>,
    records: Seq<Value>,
    names: Seq<Seq<char>>,
    fr: int,
    fc: int,
    r: int,
    c: int,
)
    requires
        c >= names.len() || !(records[r].kind is Record),
        0 <= r,
    ensures
        filled(cells0, records, names, fr, fc, r + 1, 0) == filled(
            cells0,
            records,
            names,
            fr,
            fc,
            r,
            c,
        ),
{
    let a = filled(cells0, records, names, fr, fc, r + 1, 0);
    let b = filled(cells0, records, names, fr, fc, r, c);
    assert forall|k: (u32, u16)|
        stretch_cell(records, names, fr, fc, r + 1, 0, k) == stretch_cell(
            records,
            names,
            fr,
            fc,
            r,
            c,
            k,
        ) by {
        if k.0 >= 1 && k.0 - 1 == r && k.1 >= c {
            assert(planned_value(records, names, r, k.1 as int) is None);
        }
    }
    assert(a =~= b);
}

/// Fills a table's body, row by row, from cell `from` on, until it is full,
/// a write fails, or a float or a duration is due: the caller writes that
/// number and calls again from the next cell. Notes in `has_date` the
/// columns that received a date.
pub fn fill_cells(
    sheet: &mut Worksheet,
    records: &Vec<Value>,
    columns: &Vec<String>,
    from: Position,
    has_date: &mut Vec<bool>,
    span: Span,
) -> (stop: FillStop)
    requires
        columns@.len() <= MAX_COLUMNS,
        old(has_date)@.len() == columns@.len(),
        from.row_idx <= records@.len(),
        from.col <= columns@.len(),
        from.row_idx == records@.len() ==> from.col == 0,
        from.col > 0 ==> from.row_idx + 1 <= u32::MAX,
    ensures
        final(has_date)@.len() == columns@.len(),
        sheet_tables(*final(sheet)) == sheet_tables(*old(sheet)),
        sheet_title(*final(sheet)) == sheet_title(*old(sheet)),
        sheet_autofiltered(*final(sheet)) == sheet_autofiltered(*old(sheet)),
        sizes_by_default(*final(sheet)) == sizes_by_default(*old(sheet)),
        column_widths(*final(sheet)) == column_widths(*old(sheet)),
        match stop {
            FillStop::Number { at, row, col, bits, span: at_span } => {
                &&& !before(at.row_idx as int, at.col as int, from.row_idx as int, from.col as int)
                &&& at.row_idx < records@.len() && at.col < columns@.len()
                &&& row == at.row_idx + 1 && col == at.col
                &&& planned_value(records@, names_of(columns@), at.row_idx as int, at.col as int) matches Some(v)
                &&& is_float_cell(v)
                &&& float_bits(v) == bits
                &&& v.span == at_span
                &&& stretch_fits(
                    records@,
                    names_of(columns@),
                    from.row_idx as int,
                    from.col as int,
                    at.row_idx as int,
                    at.col as int,
                )
                &&& no_float_in_stretch(
                    records@,
                    names_of(columns@),
                    from.row_idx as int,
                    from.col as int,
                    at.row_idx as int,
                    at.col as int,
                )
                &&& sheet_cells(*final(sheet)) == filled(
                    sheet_cells(*old(sheet)),
                    records@,
                    names_of(columns@),
                    from.row_idx as int,
                    from.col as int,
                    at.row_idx as int,
                    at.col as int,
                )
                &&& forall|c: int|
                    0 <= c < columns@.len() ==> #[trigger] final(has_date)@[c] == (old(has_date)@[c]
                        || date_in_stretch(
                        records@,
                        names_of(columns@),
                        from.row_idx as int,
                        from.col as int,
                        at.row_idx as int,
                        at.col as int,
                        c,
                    ))
            },
            FillStop::Finished => {
                &&& sheet_cells(*final(sheet)) == filled(
                    sheet_cells(*old(sheet)),
                    records@,
                    names_of(columns@),
                    from.row_idx as int,
                    from.col as int,
                    records@.len() as int,
                    0,
                )
                &&& forall|c: int|
                    0 <= c < columns@.len() ==> #[trigger] final(has_date)@[c] == (old(has_date)@[c]
                        || date_in_stretch(
                        records@,
                        names_of(columns@),
                        from.row_idx as int,
                        from.col as int,
                        records@.len() as int,
                        0,
                        c,
                    ))
                &&& from.row_idx < records@.len() ==> records@.len() <= u32::MAX
                &&& stretch_fits(
                    records@,
                    names_of(columns@),
                    from.row_idx as int,
                    from.col as int,
                    records@.len() as int,
                    0,
                )
                &&& no_float_in_stretch(
                    records@,
                    names_of(columns@),
                    from.row_idx as int,
                    from.col as int,
                    records@.len() as int,
                    0,
                )
            },
            FillStop::Failed(e) => {
                ||| {
                    &&& e@ == too_many_rows(span)
                    &&& records@.len() > u32::MAX
                    &&& stretch_fits(
                        records@,
                        names_of(columns@),
                        from.row_idx as int,
                        from.col as int,
                        u32::MAX as int,
                        0,
                    )
                }
                ||| exists|r: int, c: int|
                    #![trigger cell_fails(records@, names_of(columns@), r, c)]
                    {
                        &&& in_stretch(r, c, from.row_idx as int, from.col as int, records@.len() as int, 0)
                        &&& cell_fails(records@, names_of(columns@), r, c)
                        &&& stretch_fits(records@, names_of(columns@), from.row_idx as int, from.col as int, r, c)
                        &&& is_failure(
                            e@,
                            "Failed to write cell"@,
                            planned_value(records@, names_of(columns@), r, c).unwrap().span,
                        )
                    }
            },
        },
{
    let nrec = records.len();
    let ncols = columns.len();
    let mut r = from.row_idx;
    let mut c = from.col;
    let ghost cells0 = sheet_cells(*sheet);
    let ghost has0 = has_date@;
    let ghost fr = from.row_idx as int;
    let ghost fc = from.col as int;
    proof {
        assert(filled(cells0, records@, names_of(columns@), fr, fc, fr, fc) =~= cells0);
    }
    loop
        invariant
            nrec == records@.len(),
            ncols == columns@.len(),
            ncols <= MAX_COLUMNS,
            fr == from.row_idx,
            fc == from.col,
            r <= nrec,
            c <= ncols,
            r == nrec ==> c == 0,
            !before(r as int, c as int, fr, fc),
            c > 0 ==> r + 1 <= u32::MAX,
            fr < r ==> r <= u32::MAX,
            sheet_cells(*sheet) == filled(cells0, records@, names_of(columns@), fr, fc, r as int, c as int),
            stretch_fits(records@, names_of(columns@), fr, fc, r as int, c as int),
            no_float_in_stretch(records@, names_of(columns@), fr, fc, r as int, c as int),
            sheet_tables(*sheet) == sheet_tables(*old(sheet)),
            sheet_title(*sheet) == sheet_title(*old(sheet)),
            sheet_autofiltered(*sheet) == sheet_autofiltered(*old(sheet)),
            sizes_by_default(*sheet) == sizes_by_default(*old(sheet)),
            column_widths(*sheet) == column_widths(*old(sheet)),
            cells0 == sheet_cells(*old(sheet)),
            has0 == old(has_date)@,
            has_date@.len() == ncols,
            forall|cc: int|
                0 <= cc < ncols ==> #[trigger] has_date@[cc] == (has0[cc] || date_in_stretch(
                    records@,
                    names_of(columns@),
                    fr,
                    fc,
                    r as int,
                    c as int,
                    cc,
                )),
        decreases nrec - r, ncols - c,
    {
        if r >= nrec {
            return FillStop::Finished;
        }
        if c == 0 && r >= 4_294_967_295 {
            return FillStop::Failed(
                LabeledError::new("Too many rows".to_owned(), "exceeds u32 range".to_owned(), span),
            );
        }
        let row = (r + 1) as u32;
        let mut next_row = true;
        match &records[r].kind {
            ValueKind::Record(cols) => {
                if c < ncols {
                    next_row = false;
                    let ghost before_cells = sheet_cells(*sheet);
                    match record_get(cols, &columns[c]) {
                        Some(v) => {
                            let is_date = match &v.kind {
                                ValueKind::Date(_) => true,
                                _ => false,
                            };
                            if is_date {
                                has_date.set(c, true);
                            }
                            match &v.kind {
                                ValueKind::Float(bits) => {
                                    return FillStop::Number {
                                        at: Position { row_idx: r, col: c },
                                        row,
                                        col: c as u16,
                                        bits: *bits,
                                        span: v.span,
                                    };
                                },
                                ValueKind::Duration(bits) => {
                                    return FillStop::Number {
                                        at: Position { row_idx: r, col: c },
                                        row,
                                        col: c as u16,
                                        bits: *bits,
                                        span: v.span,
                                    };
                                },
                                _ => {},
                            }
                            match write_cell(sheet, row, c as u16, v) {
                                Ok(()) => {},
                                Err(e) => {
                                    proof {
                                        let rr = r as int;
                                        let cc = c as int;
                                        assert(planned_value(records@, names_of(columns@), rr, cc) == Some(*v));
                                        assert(in_stretch(rr, cc, fr, fc, nrec as int, 0));
                                        assert(cell_fails(records@, names_of(columns@), rr, cc));
                                    }
                                    return FillStop::Failed(e);
                                },
                            }
                        },
                        None => {},
                    }
                    proof {
                        lemma_filled_step(cells0, records@, names_of(columns@), fr, fc, r as int, c as int);
                    }
                    c = c + 1;
                }
            },
            _ => {},
        }
        if next_row {
            proof {
                lemma_filled_next_row(cells0, records@, names_of(columns@), fr, fc, r as int, c as int);
            }
            r = r + 1;
            c = 0;
        }
    }
}

/// Whether two sets of cells agree everywhere but at the body cells that
/// hold a float or a duration.
pub open spec fn agree_but_floats(
    a: Map<(u32, u16), SheetCell>,
    b: Map<(u32, u16), SheetCell>,
    records: Seq<Value>,
    names: Seq<Seq<char>>,
) -> bool {
    forall|k: (u32, u16)|
        #![trigger a.dom().contains(k)]
        #![trigger b.dom().contains(k)]
        !is_float_position(records, names, k) ==> {
            &&& (a.dom().contains(k) <==> b.dom().contains(k))
            &&& a.dom().contains(k) ==> a[k] == b[k]
        }
}

/// Filling on from cells that agree with a stretch gives cells that agree
/// with the longer stretch.
pub proof fn lemma_fill_agrees(
    cells: Map<(u32, u16), SheetCell>,
    base: Map<(u32, u16), SheetCell>,
    records: Seq<Value>,
    names: Seq<Seq<char>>,
    fr: int,
    fc: int,
    tr: int,
    tc: int,
)
    requires
        0 <= fr,
        0 <= fc,
        !before(tr, tc, fr, fc),
        agree_but_floats(cells, filled(base, records, names, 0, 0, fr, fc), records, names),
        forall|k: (u32, u16)| #[trigger] base.dom().contains(k) ==> k.0 == 0,
    ensures
        agree_but_floats(
            filled(cells, records, names, fr, fc, tr, tc),
            filled(base, records, names, 0, 0, tr, tc),
            records,
            names,
        ),
{
    let a = filled(cells, records, names, fr, fc, tr, tc);
    let b = filled(base, records, names, 0, 0, tr, tc);
    let m = filled(base, records, names, 0, 0, fr, fc);
    assert forall|k: (u32, u16)| !is_float_position(records, names, k) implies {
        &&& (a.dom().contains(k) <==> b.dom().contains(k))
        &&& a.dom().contains(k) ==> a[k] == b[k]
    } by {
        assert(m.dom().contains(k) <==> cells.dom().contains(k));
        if k.0 >= 1 {
            let r = k.0 - 1;
            let c = k.1 as int;
            if in_stretch(r, c, fr, fc, tr, tc) {
                assert(!in_stretch(r, c, 0, 0, fr, fc));
                assert(in_stretch(r, c, 0, 0, tr, tc));
            } else if in_stretch(r, c, 0, 0, fr, fc) {
                assert(in_stretch(r, c, 0, 0, tr, tc));
            } else {
                assert(!in_stretch(r, c, 0, 0, tr, tc));
            }
        }
    }
}

/// The name an Excel Table gives column `c` of a table: the column's name,
/// or else `Column` and the column's number, from 1.
pub open spec fn column_title(names: Seq<Seq<char>>, c: int) -> Seq<char> {
    if names[c].len() > 0 {
        names[c]
    } else {
        "Column"@ + decimal((c + 1) as nat)
    }
}

/// Whether two of the names a Table gives a table's columns differ only in case.
pub open spec fn titles_clash(names: Seq<Seq<char>>) -> bool {
    exists|c1: int, c2: int|
        #![trigger column_title(names, c1), column_title(names, c2)]
        0 <= c1 < c2 < names.len() && str_lowercase(column_title(names, c1)) == str_lowercase(
            column_title(names, c2),
        )
}

/// What position `k` of a table's finished sheet holds: as `content_at`
/// states, but that in a Table each header cell holds its column's title.
pub open spec fn sheet_content_at(records: Seq<Value>, names: Seq<Seq<char>>, raw: bool, k: (u32, u16)) -> Option<
    SheetCell,
> {
    if !raw && k.0 == 0 && (k.1 as int) < names.len() {
        Some(SheetCell::Text(column_title(names, k.1 as int)))
    } else {
        content_at(records, names, k)
    }
}

/// Whether a sheet's cells hold its table, as `sheet_content_at` states,
/// but for the floats and durations, which the caller writes.
pub open spec fn holds_content(
    cells: Map<(u32, u16), SheetCell>,
    records: Seq<Value>,
    names: Seq<Seq<char>>,
    raw: bool,
) -> bool {
    forall|k: (u32, u16)|
        #![trigger cells.dom().contains(k)]
        !is_float_position(records, names, k) ==> {
            &&& (cells.dom().contains(k) <==> sheet_content_at(records, names, raw, k) is Some)
            &&& cells.dom().contains(k) ==> cells[k] == sheet_content_at(records, names, raw, k).unwrap()
        }
}

/// The range of the Excel Table over a sheet: from the header's first cell
/// to the last row's last column. A sheet without columns gets the last
/// column number there is, which no Table can have.
pub open spec fn table_range(row_count: nat, num_cols: u16) -> (u32, u16, u32, u16) {
    (0, 0, row_count as u32, if num_cols == 0 {
        65535
    } else {
        (num_cols - 1) as u16
    })
}

/// Whether a sheet of `row_count` rows and `num_cols` columns, with these
/// cells, can be made a Table: the Table fits and its column names do not
/// differ only in case.
pub open spec fn table_allowed(cells: Map<(u32, u16), SheetCell>, row_count: nat, num_cols: u16) -> bool {
    &&& row_count <= u32::MAX
    &&& table_fits(0, 0, row_count as u32, table_range(row_count, num_cols).3)
    &&& !table_headers_clash(cells, 0, 0, table_range(row_count, num_cols).3)
}

/// Whether every date column records a width of at least
/// `date_column_width()` characters, in pixels.
pub open spec fn dates_wide_enough(widths: Map<u16, (u32, bool)>, has_date: Seq<bool>) -> bool {
    forall|c: int|
        0 <= c < has_date.len() && #[trigger] has_date[c] ==> {
            &&& widths.dom().contains(c as u16)
            &&& widths[c as u16].0 >= width_pixels(20)
        }
}

/// Whether every column holding a cell that autofit measures records a
/// width.
pub open spec fn columns_fitted(cells: Map<(u32, u16), SheetCell>, widths: Map<u16, (u32, bool)>) -> bool {
    forall|k: (u32, u16)|
        #![trigger cells.dom().contains(k)]
        cells.dom().contains(k) && autofit_measures(cells[k]) ==> widths.dom().contains(k.1)
}

/// Whether a date column lies beyond the grid.
pub open spec fn date_column_off_grid(has_date: Seq<bool>) -> bool {
    exists|c: int| 0 <= c < has_date.len() && #[trigger] has_date[c] && c >= COL_LIMIT
}

/// Finishes a written sheet: unless `raw`, turns it into an Excel Table
/// (auto-filter, banded rows) spanning header and rows, which names the
/// columns across the header row; widens each date column to fit its
/// format; then autofits the columns, which narrows none of them. On a sheet without a Table or an
/// autofilter, it succeeds exactly when the Table is allowed and no date
/// column lies beyond the grid.
pub fn finish_sheet(
    sheet: &mut Worksheet,
    row_count: usize,
    num_cols: u16,
    raw: bool,
    has_date: &Vec<bool>,
    span: Span,
) -> (r: Result<(), LabeledError>)
    requires
        has_date@.len() == num_cols,
    ensures
        match r {
            Ok(()) => {
                &&& sheet_tables(*final(sheet)) == if raw {
                    sheet_tables(*old(sheet))
                } else {
                    sheet_tables(*old(sheet)).push(table_range(row_count as nat, num_cols))
                }
                &&& sheet_cells(*final(sheet)) == if raw {
                    sheet_cells(*old(sheet))
                } else {
                    with_table_headers(sheet_cells(*old(sheet)), 0, 0, table_range(row_count as nat, num_cols).3)
                }
                &&& !raw ==> table_allowed(sheet_cells(*old(sheet)), row_count as nat, num_cols)
                &&& !date_column_off_grid(has_date@)
                &&& sizes_by_default(*old(sheet)) ==> dates_wide_enough(column_widths(*final(sheet)), has_date@)
                &&& sizes_by_default(*old(sheet)) ==> columns_fitted(sheet_cells(*final(sheet)), column_widths(*final(sheet)))
            },
            Err(e) => {
                ||| !raw && row_count > u32::MAX && e@ == too_many_rows(span)
                ||| !raw && row_count <= u32::MAX && is_failure(e@, "Failed to add table"@, span) && (sheet_tables(
                    *old(sheet),
                ).len() == 0 && !sheet_autofiltered(*old(sheet)) ==> !table_allowed(
                    sheet_cells(*old(sheet)),
                    row_count as nat,
                    num_cols,
                ))
                ||| {
                    &&& !raw ==> table_allowed(sheet_cells(*old(sheet)), row_count as nat, num_cols)
                    &&& date_column_off_grid(has_date@)
                    &&& is_failure(e@, "Failed to set column width"@, span)
                }
            },
        },
        sheet_title(*final(sheet)) == sheet_title(*old(sheet)),
        sheet_autofiltered(*final(sheet)) == sheet_autofiltered(*old(sheet)),
        sizes_by_default(*final(sheet)) == sizes_by_default(*old(sheet)),
        sheet_tables(*old(sheet)).len() == 0 && !sheet_autofiltered(*old(sheet)) ==> (r is Ok <==> (raw
            || table_allowed(sheet_cells(*old(sheet)), row_count as nat, num_cols)) && !date_column_off_grid(
            has_date@,
        )),
{
    if !raw {
        if row_count > 4_294_967_295 {
            return Err(LabeledError::new("Too many rows".to_owned(), "exceeds u32 range".to_owned(), span));
        }
        let last_row = row_count as u32;
        match add_table(sheet, 0, 0, last_row, num_cols.wrapping_sub(1)) {
            Ok(()) => {},
            Err(e) => {
                return Err(LabeledError::new("Failed to add table".to_owned(), error_text(&e), span));
            },
        }
    }
    let ghost after_table = sheet_cells(*sheet);
    let ghost tables = sheet_tables(*sheet);
    let width = date_column_width();
    let mut col: usize = 0;
    while col < has_date.len()
        invariant
            col <= has_date@.len(),
            has_date@.len() == num_cols,
            sheet_cells(*sheet) == after_table,
            sheet_tables(*sheet) == tables,
            sheet_title(*sheet) == sheet_title(*old(sheet)),
            sheet_autofiltered(*sheet) == sheet_autofiltered(*old(sheet)),
            sizes_by_default(*sheet) == sizes_by_default(*old(sheet)),
            forall|c: int| 0 <= c < col ==> #[trigger] has_date@[c] ==> c < COL_LIMIT,
            width == 20,
            !raw ==> table_allowed(sheet_cells(*old(sheet)), row_count as nat, num_cols),
            sizes_by_default(*old(sheet)) ==> forall|c: int|
                0 <= c < col && #[trigger] has_date@[c] ==> {
                    &&& column_widths(*sheet).dom().contains(c as u16)
                    &&& column_widths(*sheet)[c as u16] == (width_pixels(20), false)
                },
        decreases has_date@.len() - col,
    {
        if has_date[col] {
            match set_column_width(sheet, col as u16, width) {
                Ok(()) => {},
                Err(e) => {
                    return Err(
                        LabeledError::new("Failed to set column width".to_owned(), error_text(&e), span),
                    );
                },
            }
        }
        col = col + 1;
    }
    autofit(sheet);
    Ok(())
}

/// What worksheet position `k` of a table's sheet holds: the column names
/// across the header row, and below it, for each record, the cells its
/// values are written as.
pub open spec fn content_at(records: Seq<Value>, names: Seq<Seq<char>>, k: (u32, u16)) -> Option<SheetCell> {
    if k.0 == 0 {
        if (k.1 as int) < names.len() {
            text_cell(names[k.1 as int])
        } else {
            None
        }
    } else {
        match planned_value(records, names, k.0 - 1, k.1 as int) {
            Some(v) => written_cell(v),
            None => None,
        }
    }
}

/// Whether position `k` is a body cell holding a float or a duration.
pub open spec fn is_float_position(records: Seq<Value>, names: Seq<Seq<char>>, k: (u32, u16)) -> bool {
    &&& k.0 >= 1
    &&& planned_value(records, names, k.0 - 1, k.1 as int) matches Some(v)
    &&& is_float_cell(v)
}

/// The cells of a table's sheet, but for the floats and durations.
pub open spec fn content_but_floats(records: Seq<Value>, names: Seq<Seq<char>>) -> Map<(u32, u16), SheetCell> {
    Map::new(
        |k: (u32, u16)| content_at(records, names, k) is Some && !is_float_position(records, names, k),
        |k: (u32, u16)| content_at(records, names, k).unwrap(),
    )
}

/// The header row, once the first `n` names are written to it, holds each
/// of those that is not empty, at its column.
pub proof fn lemma_headers_content(names: Seq<Seq<char>>, n: nat)
    requires
        n <= names.len(),
        names.len() <= MAX_COLUMNS,
    ensures
        forall|k: (u32, u16)|
            #![trigger with_headers(Map::empty(), names, n).dom().contains(k)]
            {
                &&& with_headers(Map::empty(), names, n).dom().contains(k) <==> (k.0 == 0 && (k.1 as int)
                    < n && names[k.1 as int].len() > 0)
                &&& with_headers(Map::empty(), names, n).dom().contains(k) ==> with_headers(
                    Map::empty(),
                    names,
                    n,
                )[k] == SheetCell::Text(names[k.1 as int])
            },
    decreases n,
{
    if n > 0 {
        lemma_headers_content(names, (n - 1) as nat);
    }
}

/// A table's sheet, once its header row is written and its body filled on
/// a new worksheet, holds the column names across the header row and each
/// record's values below it, as `content_at` states, but for the floats and
/// durations, whose writing falls to the caller.
pub proof fn lemma_fresh_sheet_content(records: Seq<Value>, names: Seq<Seq<char>>)
    requires
        names.len() <= MAX_COLUMNS,
    ensures
        filled(
            with_headers(Map::empty(), names, names.len()),
            records,
            names,
            0,
            0,
            records.len() as int,
            0,
        ) == content_but_floats(records, names),
{
    let headers = with_headers(Map::empty(), names, names.len());
    lemma_headers_content(names, names.len());
    let a = filled(headers, records, names, 0, 0, records.len() as int, 0);
    let b = content_but_floats(records, names);
    assert forall|k: (u32, u16)| a.dom().contains(k) <==> b.dom().contains(k) by {
        assert(headers.dom().contains(k) <==> (k.0 == 0 && (k.1 as int) < names.len()
            && names[k.1 as int].len() > 0));
    }
    assert forall|k: (u32, u16)| a.dom().contains(k) implies a[k] == b[k] by {
        assert(headers.dom().contains(k) <==> (k.0 == 0 && (k.1 as int) < names.len()
            && names[k.1 as int].len() > 0));
    }
    assert(a =~= b);
}

/// On cells that agree with a table's content but for the floats and
/// durations, a Table over the header row names each column with its
/// title, and its names clash exactly when the titles do.
pub proof fn lemma_table_titles(cells: Map<(u32, u16), SheetCell>, records: Seq<Value>, names: Seq<Seq<char>>)
    requires
        0 < names.len() <= COL_LIMIT,
        agree_but_floats(cells, content_but_floats(records, names), records, names),
    ensures
        forall|c: u16|
            #![trigger table_header(cells, 0, 0, c)]
            (c as int) < names.len() ==> table_header(cells, 0, 0, c) == column_title(names, c as int),
        table_headers_clash(cells, 0, 0, (names.len() - 1) as u16) == titles_clash(names),
{
    let content = content_but_floats(records, names);
    let last = (names.len() - 1) as u16;
    assert forall|c: u16| (c as int) < names.len() implies table_header(cells, 0, 0, c) == column_title(
        names,
        c as int,
    ) by {
        let k = (0u32, c);
        assert(cells.dom().contains(k) <==> content.dom().contains(k));
    }
    if table_headers_clash(cells, 0, 0, last) {
        let (c1, c2) = choose|c1: u16, c2: u16|
            #![trigger table_header(cells, 0, 0, c1), table_header(cells, 0, 0, c2)]
            0 <= c1 < c2 <= last && str_lowercase(table_header(cells, 0, 0, c1)) == str_lowercase(
                table_header(cells, 0, 0, c2),
            );
        assert(table_header(cells, 0, 0, c1) == column_title(names, c1 as int));
        assert(table_header(cells, 0, 0, c2) == column_title(names, c2 as int));
        assert(titles_clash(names));
    }
    if titles_clash(names) {
        let (c1, c2) = choose|c1: int, c2: int|
            #![trigger column_title(names, c1), column_title(names, c2)]
            0 <= c1 < c2 < names.len() && str_lowercase(column_title(names, c1)) == str_lowercase(
                column_title(names, c2),
            );
        assert(table_header(cells, 0, 0, c1 as u16) == column_title(names, c1));
        assert(table_header(cells, 0, 0, c2 as u16) == column_title(names, c2));
        assert(table_headers_clash(cells, 0, 0, last));
    }
}

/// A sheet whose cells agree with its table's content, but for the floats
/// and durations, holds that content once it is finished, as
/// `sheet_content_at` states: unchanged when raw, and, as a Table, with
/// each header cell holding its column's title.
pub proof fn lemma_finished_holds_content(
    before: Map<(u32, u16), SheetCell>,
    after: Map<(u32, u16), SheetCell>,
    records: Seq<Value>,
    names: Seq<Seq<char>>,
    raw: bool,
)
    requires
        names.len() <= MAX_COLUMNS,
        agree_but_floats(before, content_but_floats(records, names), records, names),
        raw ==> after == before,
        !raw ==> 0 < names.len() <= COL_LIMIT && after == with_table_headers(
            before,
            0,
            0,
            (names.len() - 1) as u16,
        ),
    ensures
        holds_content(after, records, names, raw),
{
    let content = content_but_floats(records, names);
    if !raw {
        lemma_table_titles(before, records, names);
    }
    assert forall|k: (u32, u16)| !is_float_position(records, names, k) implies {
        &&& (after.dom().contains(k) <==> sheet_content_at(records, names, raw, k) is Some)
        &&& after.dom().contains(k) ==> after[k] == sheet_content_at(records, names, raw, k).unwrap()
    } by {
        assert(before.dom().contains(k) <==> content.dom().contains(k));
        if !raw && k.0 == 0 && (k.1 as int) < names.len() {
            assert(table_header(before, 0, 0, k.1) == column_title(names, k.1 as int));
        }
    }
}

} // verus!
