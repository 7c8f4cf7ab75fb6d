use std::io::Cursor;

use calamine::{open_workbook_from_rs, Data, Reader, Xlsx};
use nu_plugin_xlsx::model::{DateStamp, LabeledError, Span, Value, ValueKind, MAX_TIMESTAMP, MIN_TIMESTAMP};
use nu_plugin_xlsx::sheet::{
    date_column_width, fill_cells, finish_sheet, record_get, sheet_shape, write_cell, write_headers, FillStop,
    Position, SheetShape, DATE_NUM_FORMAT,
};
use nu_plugin_xlsx::sheet_names::{
    name_sheet, reject_duplicate_sheet_names, sheet_name_problem, SheetNameError, SHEET_NAME_RULES,
};
use nu_plugin_xlsx::text::decimal_string;
use nu_plugin_xlsx::to_xlsx::{sheets_from_input, Conversion, Step};
use nu_plugin_xlsx::ToXlsx;
use rust_xlsxwriter::Worksheet;

fn at(start: usize, end: usize) -> Span {
    Span { start, end }
}

fn call() -> Span {
    at(100, 108)
}

fn value(kind: ValueKind, type_desc: &str) -> Value {
    Value { kind, type_desc: type_desc.to_string(), text: String::new(), span: at(1, 2) }
}

fn string(s: &str) -> Value {
    value(ValueKind::String(s.to_string()), "string")
}

fn integer(i: i64) -> Value {
    value(ValueKind::Int(i), "int")
}

fn float(f: f64) -> Value {
    value(ValueKind::Float(f.to_bits()), "float")
}

fn record(cols: Vec<(&str, Value)>) -> Value {
    let cols: Vec<(String, Value)> = cols.into_iter().map(|(k, v)| (k.to_string(), v)).collect();
    value(ValueKind::Record(cols), "record")
}

fn list(vals: Vec<Value>) -> Value {
    value(ValueKind::List(vals), "list<any>")
}

fn run(sheets: Vec<(String, Value)>, raw: bool) -> Result<Vec<u8>, LabeledError> {
    let mut conversion = Conversion::start(sheets, raw, call())?;
    loop {
        match conversion.step() {
            Step::WriteNumber { row, col, bits } => {
                let outcome = match conversion.pending_sheet() {
                    Some(sheet) => sheet
                        .write_number(row, col, f64::from_bits(bits))
                        .map(|_| ())
                        .map_err(|e| e.to_string()),
                    None => Ok(()),
                };
                conversion.number_written(outcome)?;
            }
            Step::Done(bytes) => return Ok(bytes),
            Step::Failed(e) => return Err(e),
        }
    }
}

fn read(bytes: Vec<u8>) -> Xlsx<Cursor<Vec<u8>>> {
    open_workbook_from_rs(Cursor::new(bytes)).expect("readable xlsx")
}

fn rows_of(bytes: Vec<u8>, sheet: &str) -> Vec<Vec<Data>> {
    let mut wb = read(bytes);
    let range = wb.worksheet_range(sheet).expect("sheet present");
    range.rows().map(|r| r.to_vec()).collect()
}

fn fails_with(sheets: Vec<(String, Value)>, raw: bool) -> LabeledError {
    match run(sheets, raw) {
        Ok(_) => panic!("expected an error"),
        Err(e) => e,
    }
}

#[test]
fn a_table_is_one_sheet_named_sheet1() {
    let sheets = sheets_from_input(list(vec![])).expect("a table is accepted");
    assert_eq!(sheets.len(), 1);
    assert_eq!(sheets[0].0, "Sheet1");
}

#[test]
fn a_record_gives_one_sheet_per_key_in_order() {
    let input = record(vec![("Zeta", list(vec![])), ("Alpha", list(vec![])), ("Mid", list(vec![]))]);
    let sheets = sheets_from_input(input).expect("a record is accepted");
    let names: Vec<&str> = sheets.iter().map(|(k, _)| k.as_str()).collect();
    assert_eq!(names, vec!["Zeta", "Alpha", "Mid"]);

    let input = record(vec![
        ("Zeta", list(vec![record(vec![("a", integer(1))])])),
        ("Alpha", list(vec![])),
    ]);
    let bytes = run(sheets_from_input(input).unwrap(), false).expect("written");
    assert_eq!(read(bytes).sheet_names(), vec!["Zeta".to_string(), "Alpha".to_string()]);
}

#[test]
fn other_input_is_refused_with_its_type() {
    let mut input = string("hi");
    input.span = at(5, 9);
    let e = sheets_from_input(input).err().expect("refused");
    assert_eq!(e.msg, "Expected table or record of tables");
    assert_eq!(e.label.text, "got string");
    assert_eq!(e.label.span, at(5, 9));
    assert!(e.help.is_none());
}

#[test]
fn a_record_without_keys_still_gives_a_workbook() {
    let sheets = sheets_from_input(record(vec![])).expect("accepted");
    assert!(sheets.is_empty());
    let bytes = run(sheets, false).expect("written");
    assert_eq!(read(bytes).sheet_names().len(), 1);
}

#[test]
fn duplicate_names_are_reported_exactly() {
    let sheets = vec![
        ("A".to_string(), list(vec![])),
        ("B".to_string(), list(vec![])),
        ("A".to_string(), list(vec![])),
    ];
    let e = reject_duplicate_sheet_names(&sheets, call()).err().expect("refused");
    assert_eq!(e.msg, "Duplicate sheet name");
    assert_eq!(e.label.text, "\"A\" appears twice");
    assert_eq!(e.label.span, call());
    assert_eq!(e.help.as_deref(), Some(SHEET_NAME_RULES));

    let sheets = vec![
        ("Ventes".to_string(), list(vec![])),
        ("x".to_string(), list(vec![])),
        ("VENTES".to_string(), list(vec![])),
        ("ventes".to_string(), list(vec![])),
    ];
    let e = reject_duplicate_sheet_names(&sheets, call()).err().expect("refused");
    assert_eq!(e.label.text, "\"Ventes\" and \"VENTES\" differ only in case");

    let sheets = vec![("a".to_string(), list(vec![])), ("b".to_string(), list(vec![]))];
    assert!(reject_duplicate_sheet_names(&sheets, call()).is_ok());
}

#[test]
fn duplicates_are_found_before_anything_is_written() {
    let sheets = vec![
        ("bad/name".to_string(), list(vec![])),
        ("S".to_string(), list(vec![])),
        ("s".to_string(), list(vec![])),
    ];
    let e = fails_with(sheets, false);
    assert_eq!(e.msg, "Duplicate sheet name");
}

#[test]
fn sheet_name_problems_read_as_stated() {
    assert_eq!(sheet_name_problem("", &SheetNameError::Blank), "the name is empty");
    assert_eq!(
        sheet_name_problem(&"y".repeat(40), &SheetNameError::TooLong),
        "40 characters, and Excel allows 31"
    );
    assert_eq!(
        sheet_name_problem("a[b]:c", &SheetNameError::InvalidCharacter),
        "contains '[', ']', ':'"
    );
    assert_eq!(
        sheet_name_problem("plain", &SheetNameError::InvalidCharacter),
        "contains a character Excel forbids"
    );
    assert_eq!(
        sheet_name_problem("'x", &SheetNameError::Apostrophe),
        "starts or ends with an apostrophe"
    );
    assert_eq!(
        sheet_name_problem("x", &SheetNameError::Other("in its own words".to_string())),
        "in its own words"
    );
}

#[test]
fn naming_a_sheet_reports_the_rule_broken() {
    let mut sheet = Worksheet::new();
    assert!(name_sheet(&mut sheet, "Orders", call()).is_ok());
    assert_eq!(sheet.name(), "Orders");

    let e = name_sheet(&mut sheet, "Q1/Q2", call()).err().expect("refused");
    assert_eq!(e.msg, "Failed to set sheet name \"Q1/Q2\"");
    assert_eq!(e.label.text, "contains '/'");
    assert_eq!(e.help.as_deref(), Some(SHEET_NAME_RULES));
    assert_eq!(sheet.name(), "Orders");

    let e = name_sheet(&mut sheet, "Q1'", call()).err().expect("refused");
    assert_eq!(e.label.text, "starts or ends with an apostrophe");
}

#[test]
fn length_counts_utf16_units_and_the_message_counts_characters() {
    // Sixteen characters outside the Basic Multilingual Plane are 32 UTF-16 units.
    let name = "\u{1F600}".repeat(16);
    let mut sheet = Worksheet::new();
    let e = name_sheet(&mut sheet, &name, call()).err().expect("refused");
    assert_eq!(e.label.text, "16 characters, and Excel allows 31");

    // Fifteen of them, 30 units, are accepted.
    assert!(name_sheet(&mut sheet, &"\u{1F600}".repeat(15), call()).is_ok());
}

#[test]
fn decimal_numbers() {
    assert_eq!(decimal_string(0), "0");
    assert_eq!(decimal_string(7), "7");
    assert_eq!(decimal_string(10), "10");
    assert_eq!(decimal_string(12345), "12345");
}

#[test]
fn date_width_is_the_format_length_plus_one() {
    assert_eq!(date_column_width() as usize, DATE_NUM_FORMAT.len() + 1);
    assert_eq!(date_column_width(), 20);
}

#[test]
fn timestamps_cover_the_calendar_and_no_more() {
    assert!(DateStamp::new(MIN_TIMESTAMP, 0).is_some());
    assert!(DateStamp::new(MAX_TIMESTAMP, 999_999_999).is_some());
    assert!(DateStamp::new(MIN_TIMESTAMP - 1, 0).is_none());
    assert!(chrono::DateTime::from_timestamp(MIN_TIMESTAMP, 0).is_some());
    assert!(chrono::DateTime::from_timestamp(MIN_TIMESTAMP - 1, 0).is_none());
    assert!(chrono::DateTime::from_timestamp(MAX_TIMESTAMP, 0).is_some());
    assert!(chrono::DateTime::from_timestamp(MAX_TIMESTAMP + 1, 0).is_none());
    assert!(DateStamp::new(MAX_TIMESTAMP + 1, 0).is_none());
    assert!(DateStamp::new(0, 2_000_000_000).is_none());
    // A leap second only ends a minute.
    assert!(DateStamp::new(59, 1_500_000_000).is_some());
    assert!(DateStamp::new(-1, 1_500_000_000).is_some());
    assert!(DateStamp::new(58, 1_500_000_000).is_none());

    // The extremes can be written.
    let mut sheet = Worksheet::new();
    for (row, stamp) in [(1, MIN_TIMESTAMP), (2, MAX_TIMESTAMP)] {
        let v = value(ValueKind::Date(DateStamp::new(stamp, 0).unwrap()), "datetime");
        assert!(write_cell(&mut sheet, row, 0, &v).is_ok());
    }
}

#[test]
fn dates_are_shown_in_the_date_format() {
    let stamp = DateStamp::new(1_775_466_094, 0).unwrap();
    let table = list(vec![record(vec![("when", value(ValueKind::Date(stamp), "datetime"))])]);
    let bytes = run(vec![("S".to_string(), table)], true).unwrap();
    let mut archive = zip::ZipArchive::new(Cursor::new(bytes)).expect("a zip archive");
    let mut xml = String::new();
    std::io::Read::read_to_string(&mut archive.by_name("xl/styles.xml").expect("styles"), &mut xml)
        .expect("utf-8");
    assert!(xml.contains("formatCode=\"yyyy-mm-dd hh:mm:ss\""), "{xml}");
}

#[test]
fn cells_hold_what_their_values_are() {
    let mut texts = list(vec![integer(1), integer(2)]);
    texts.text = "[1, 2]".to_string();
    let mut other = value(ValueKind::Other, "range");
    other.text = "1..3".to_string();
    let table = list(vec![record(vec![
        ("size", value(ValueKind::Filesize(2048), "filesize")),
        ("time", value(ValueKind::Duration(1.5f64.to_bits()), "duration")),
        ("items", texts),
        ("range", other),
        ("flag", value(ValueKind::Bool(false), "bool")),
        ("neg", float(-0.25)),
    ])]);
    let rows = rows_of(run(vec![("S".to_string(), table)], true).unwrap(), "S");
    assert_eq!(rows[0][0], Data::String("size".to_string()));
    assert_eq!(rows[1][0], Data::Float(2048.0));
    assert_eq!(rows[1][1], Data::Float(1.5));
    assert_eq!(rows[1][2], Data::String("[1, 2]".to_string()));
    assert_eq!(rows[1][3], Data::String("1..3".to_string()));
    assert_eq!(rows[1][4], Data::Bool(false));
    assert_eq!(rows[1][5], Data::Float(-0.25));
}

#[test]
fn header_comes_from_the_first_record_and_rows_follow() {
    let table = list(vec![
        record(vec![("a", integer(1)), ("b", integer(2))]),
        string("not a record"),
        record(vec![("b", integer(4)), ("c", integer(5)), ("a", integer(3))]),
    ]);
    let rows = rows_of(run(vec![("S".to_string(), table)], true).unwrap(), "S");
    assert_eq!(rows.len(), 4);
    assert_eq!(rows[0], vec![Data::String("a".to_string()), Data::String("b".to_string())]);
    assert_eq!(rows[1], vec![Data::Float(1.0), Data::Float(2.0)]);
    assert_eq!(rows[2], vec![Data::Empty, Data::Empty]);
    assert_eq!(rows[3], vec![Data::Float(3.0), Data::Float(4.0)]);
}

#[test]
fn a_repeated_column_name_reads_its_last_value() {
    let cols = vec![("a".to_string(), integer(1)), ("a".to_string(), integer(2))];
    let found = record_get(&cols, &"a".to_string()).expect("found");
    assert!(matches!(found.kind, ValueKind::Int(2)));
    assert!(record_get(&cols, &"b".to_string()).is_none());
}

#[test]
fn a_table_is_added_unless_raw() {
    let table = || list(vec![record(vec![("a", integer(1))]), record(vec![("a", integer(2))])]);
    let mut wb = read(run(vec![("S".to_string(), table())], false).unwrap());
    wb.load_tables().expect("tables load");
    assert_eq!(wb.table_names().len(), 1);

    let mut wb = read(run(vec![("S".to_string(), table())], true).unwrap());
    wb.load_tables().expect("tables load");
    assert!(wb.table_names().is_empty());
}

#[test]
fn column_names_differing_only_in_case_fail_the_table() {
    let table = || list(vec![record(vec![("Qty", integer(1)), ("qty", integer(2))])]);
    let e = fails_with(vec![("S".to_string(), table())], false);
    assert_eq!(e.msg, "Failed to add table");
    assert_eq!(e.label.span, call());
    assert!(run(vec![("S".to_string(), table())], true).is_ok());
}

#[test]
fn a_table_names_a_column_without_a_name_by_its_number() {
    let table = || list(vec![record(vec![("a", integer(1)), ("", integer(2))])]);
    let rows = rows_of(run(vec![("S".to_string(), table())], false).unwrap(), "S");
    assert_eq!(rows[0], vec![Data::String("a".to_string()), Data::String("Column2".to_string())]);
    let rows = rows_of(run(vec![("S".to_string(), table())], true).unwrap(), "S");
    assert_eq!(rows[0], vec![Data::String("a".to_string()), Data::Empty]);
}

#[test]
fn a_column_number_name_can_clash_with_a_column_without_a_name() {
    let table = || list(vec![record(vec![("column2", integer(1)), ("", integer(2))])]);
    let e = fails_with(vec![("S".to_string(), table())], false);
    assert_eq!(e.msg, "Failed to add table");
    assert!(run(vec![("S".to_string(), table())], true).is_ok());
}

#[test]
fn a_first_record_without_columns_cannot_make_a_table() {
    let table = || list(vec![record(vec![])]);
    let e = fails_with(vec![("S".to_string(), table())], false);
    assert_eq!(e.msg, "Failed to add table");
    assert!(run(vec![("S".to_string(), table())], true).is_ok());
}

#[test]
fn a_first_row_that_is_no_record_is_refused() {
    let mut row = integer(3);
    row.span = at(7, 8);
    let e = fails_with(vec![("S".to_string(), list(vec![row]))], false);
    assert_eq!(e.msg, "Expected records in table");
    assert_eq!(e.label.text, "got int");
    assert_eq!(e.label.span, at(7, 8));
}

#[test]
fn a_sheet_that_is_no_table_is_refused() {
    let mut v = integer(3);
    v.span = at(3, 4);
    let e = fails_with(vec![("S".to_string(), v)], false);
    assert_eq!(e.msg, "Expected a table (list of records)");
    assert_eq!(e.label.text, "got int");
    assert_eq!(e.label.span, at(3, 4));
}

#[test]
fn more_columns_than_u16_numbers_are_refused() {
    let cols: Vec<(String, Value)> = (0..65_536).map(|i| (format!("c{i}"), integer(0))).collect();
    let row = value(ValueKind::Record(cols), "record");
    let e = fails_with(vec![("S".to_string(), list(vec![row]))], false);
    assert_eq!(e.msg, "Too many columns");
    assert_eq!(e.label.text, "exceeds u16 range");
    assert_eq!(e.label.span, call());

    let v = list(vec![record(vec![("a", integer(1))])]);
    assert!(matches!(sheet_shape(&v, call()), Ok(SheetShape::Rows { .. })));
    assert!(matches!(sheet_shape(&list(vec![]), call()), Ok(SheetShape::Empty)));
}

#[test]
fn columns_beyond_the_grid_fail_the_header() {
    let cols: Vec<(String, Value)> = (0..16_385).map(|i| (format!("c{i}"), integer(0))).collect();
    let row = value(ValueKind::Record(cols), "record");
    let e = fails_with(vec![("S".to_string(), list(vec![row]))], true);
    assert_eq!(e.msg, "Failed to write header");
    assert_eq!(e.label.span, call());
}

#[test]
fn writing_cells_directly() {
    let mut sheet = Worksheet::new();
    assert!(write_cell(&mut sheet, 0, 0, &string("")).is_ok());
    assert!(write_cell(&mut sheet, 0, 0, &value(ValueKind::Nothing, "nothing")).is_ok());
    assert!(write_cell(&mut sheet, 1_048_576, 0, &string("")).is_ok());
    let mut far = integer(1);
    far.span = at(40, 41);
    let e = write_cell(&mut sheet, 1_048_576, 0, &far).err().expect("beyond the last row");
    assert_eq!(e.msg, "Failed to write cell");
    assert_eq!(e.label.span, at(40, 41));
    assert!(!e.label.text.is_empty());
    assert!(write_cell(&mut sheet, 0, 16_384, &string("x")).is_err());
    assert!(write_cell(&mut sheet, 0, 16_383, &string("x")).is_ok());
    assert!(write_cell(&mut sheet, 2, 0, &string(&"z".repeat(32_768))).is_err());
}

#[test]
fn filling_stops_at_each_float_for_the_caller() {
    let records = vec![
        record(vec![("a", integer(1)), ("b", float(0.5))]),
        record(vec![("a", float(2.5)), ("b", string("x"))]),
    ];
    let columns = vec!["a".to_string(), "b".to_string()];
    let mut sheet = Worksheet::new();
    assert!(write_headers(&mut sheet, &columns, call()).is_ok());
    let mut has_date = vec![false, false];
    let first = fill_cells(&mut sheet, &records, &columns, Position { row_idx: 0, col: 0 }, &mut has_date, call());
    match first {
        FillStop::Number { at, row, col, bits, .. } => {
            assert_eq!(at, Position { row_idx: 0, col: 1 });
            assert_eq!((row, col), (1, 1));
            assert_eq!(f64::from_bits(bits), 0.5);
        }
        _ => panic!("expected a number"),
    }
    let second = fill_cells(&mut sheet, &records, &columns, Position { row_idx: 0, col: 2 }, &mut has_date, call());
    match second {
        FillStop::Number { at, row, col, bits, .. } => {
            assert_eq!(at, Position { row_idx: 1, col: 0 });
            assert_eq!((row, col), (2, 0));
            assert_eq!(f64::from_bits(bits), 2.5);
        }
        _ => panic!("expected a number"),
    }
    let third = fill_cells(&mut sheet, &records, &columns, Position { row_idx: 1, col: 1 }, &mut has_date, call());
    assert!(matches!(third, FillStop::Finished));
    assert_eq!(has_date, vec![false, false]);
    assert!(finish_sheet(&mut sheet, records.len(), 2, false, &has_date, call()).is_ok());
}

#[test]
fn dates_mark_their_columns() {
    let stamp = DateStamp::new(1_775_466_094, 0).unwrap();
    let records = vec![record(vec![("when", value(ValueKind::Date(stamp), "datetime")), ("n", integer(1))])];
    let columns = vec!["when".to_string(), "n".to_string()];
    let mut sheet = Worksheet::new();
    let mut has_date = vec![false, false];
    let stop = fill_cells(&mut sheet, &records, &columns, Position { row_idx: 0, col: 0 }, &mut has_date, call());
    assert!(matches!(stop, FillStop::Finished));
    assert_eq!(has_date, vec![true, false]);
}

#[test]
fn a_failed_number_fails_the_conversion_at_its_value() {
    let mut f = float(1.0);
    f.span = at(20, 21);
    let table = list(vec![record(vec![("a", f)])]);
    let mut conversion = Conversion::start(vec![("S".to_string(), table)], true, call()).expect("started");
    match conversion.step() {
        Step::WriteNumber { row, col, .. } => assert_eq!((row, col), (1, 0)),
        _ => panic!("expected a number"),
    }
    let e = conversion.number_written(Err("refused".to_string())).err().expect("fails");
    assert_eq!(e.msg, "Failed to write cell");
    assert_eq!(e.label.text, "refused");
    assert_eq!(e.label.span, at(20, 21));
}

#[test]
fn every_float_and_duration_is_asked_for_once_in_order() {
    let dur = value(ValueKind::Duration(1.5f64.to_bits()), "duration");
    let first = list(vec![
        record(vec![("a", float(0.25)), ("b", integer(3))]),
        record(vec![("a", string("x")), ("b", dur)]),
    ]);
    let second = list(vec![record(vec![("c", float(-4.0))])]);
    let mut conversion = Conversion::start(
        vec![("One".to_string(), first), ("Two".to_string(), second)],
        false,
        call(),
    )
    .expect("started");
    let mut asked: Vec<(u32, u16, f64)> = Vec::new();
    let bytes = loop {
        match conversion.step() {
            Step::WriteNumber { row, col, bits } => {
                asked.push((row, col, f64::from_bits(bits)));
                if asked.len() == 1 {
                    match conversion.step() {
                        Step::WriteNumber { row: again_row, col: again_col, bits: again_bits } => {
                            assert_eq!((again_row, again_col, again_bits), (row, col, bits));
                        }
                        _ => panic!("an unreported number is asked for again"),
                    }
                }
                let outcome = match conversion.pending_sheet() {
                    Some(sheet) => sheet
                        .write_number(row, col, f64::from_bits(bits))
                        .map(|_| ())
                        .map_err(|e| e.to_string()),
                    None => Ok(()),
                };
                conversion.number_written(outcome).expect("written");
            }
            Step::Done(bytes) => break bytes,
            Step::Failed(e) => panic!("unexpected failure: {}", e.msg),
        }
    };
    assert_eq!(asked, vec![(1, 0, 0.25), (2, 1, 1.5), (1, 0, -4.0)]);
    assert_eq!(rows_of(bytes.clone(), "One")[1][0], Data::Float(0.25));
    assert_eq!(rows_of(bytes.clone(), "One")[2][1], Data::Float(1.5));
    assert_eq!(rows_of(bytes, "Two")[1][0], Data::Float(-4.0));
}

#[test]
fn integers_beyond_two_to_the_53_are_rounded_to_the_nearest_float() {
    let table = list(vec![record(vec![("n", integer(9_007_199_254_740_993)), ("m", integer(-42))])]);
    let rows = rows_of(run(vec![("S".to_string(), table)], true).unwrap(), "S");
    assert_eq!(rows[1][0], Data::Float(9_007_199_254_740_992.0));
    assert_eq!(rows[1][1], Data::Float(-42.0));
}

#[test]
fn the_first_failure_in_writing_order_is_reported() {
    // Column names that differ only in case cannot make a Table, but the
    // cell that does not fit comes first.
    let table = || list(vec![record(vec![("a", integer(1)), ("A", string(&"z".repeat(32_768)))])]);
    let e = fails_with(vec![("S".to_string(), table())], false);
    assert_eq!(e.msg, "Failed to write cell");
}

#[test]
fn date_columns_are_wide_enough_and_autofit_keeps_them() {
    let stamp = DateStamp::new(1_775_466_094, 0).unwrap();
    let table = list(vec![record(vec![("n", integer(1)), ("when", value(ValueKind::Date(stamp), "datetime"))])]);
    let bytes = run(vec![("S".to_string(), table)], false).unwrap();
    let mut archive = zip::ZipArchive::new(Cursor::new(bytes)).expect("a zip archive");
    let mut xml = String::new();
    std::io::Read::read_to_string(&mut archive.by_name("xl/worksheets/sheet1.xml").expect("sheet"), &mut xml)
        .expect("utf-8");
    let date_col = xml.split("<col min=\"2\"").nth(1).expect("the date column has a width");
    let width: f64 = date_col
        .split("width=\"")
        .nth(1)
        .and_then(|rest| rest.split('"').next())
        .expect("a width")
        .parse()
        .expect("a number");
    assert!(width >= 20.0, "{width}");
}

#[test]
fn the_command_describes_itself() {
    let command = ToXlsx;
    assert_eq!(command.name(), "to xlsx");
    assert_eq!(command.description(), "Convert table data to Excel (.xlsx) format");
    assert!(command.extra_description().contains("--raw"));
    assert_eq!(command.search_terms(), vec!["excel", "spreadsheet", "xlsx", "workbook"]);
    assert_eq!(command.raw_switch(), ("raw", "Write plain cells instead of an Excel Table", 'r'));
    let examples = command.examples();
    assert_eq!(examples.len(), 4);
    assert_eq!(examples[3], ("Plain cells without Excel Table formatting", "ls | to xlsx --raw | save files.xlsx"));
}
