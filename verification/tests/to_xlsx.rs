use std::io::{Cursor, Read};

use calamine::{open_workbook_from_rs, Reader, Xlsx};
use nu_plugin_xlsx::model::{DateStamp, LabeledError, Span, Value, ValueKind};
use nu_plugin_xlsx::sheet::DATE_NUM_FORMAT;
use nu_plugin_xlsx::sheet_names::SHEET_NAME_RULES;
use rust_xlsxwriter::Worksheet;

fn span() -> Span {
    Span { start: 0, end: 0 }
}

fn value(kind: ValueKind, type_desc: &str, text: &str) -> Value {
    Value { kind, type_desc: type_desc.to_string(), text: text.to_string(), span: span() }
}

fn string(s: &str) -> Value {
    value(ValueKind::String(s.to_string()), "string", "")
}

fn integer(i: i64) -> Value {
    value(ValueKind::Int(i), "int", "")
}

fn float(f: f64) -> Value {
    value(ValueKind::Float(f.to_bits()), "float", "")
}

fn boolean(b: bool) -> Value {
    value(ValueKind::Bool(b), "bool", "")
}

fn nothing() -> Value {
    value(ValueKind::Nothing, "nothing", "")
}

fn date(secs: i64, nanos: u32) -> Value {
    value(ValueKind::Date(DateStamp::new(secs, nanos).expect("valid timestamp")), "datetime", "")
}

fn record(cols: Vec<(&str, Value)>) -> Value {
    let cols: Vec<(String, Value)> = cols.into_iter().map(|(k, v)| (k.to_string(), v)).collect();
    value(ValueKind::Record(cols), "record", "")
}

fn list(vals: Vec<Value>) -> Value {
    value(ValueKind::List(vals), "list<any>", "")
}

/// Runs a conversion to the end, writing the numbers it asks for.
fn write_workbook(sheets: Vec<(String, Value)>, raw: bool, span: Span) -> Result<Vec<u8>, LabeledError> {
    nu_plugin_xlsx::workbook::write_workbook(sheets, raw, span, |sheet: &mut Worksheet, row: u32, col: u16, bits: u64| {
        sheet.write_number(row, col, f64::from_bits(bits)).map(|_| ()).map_err(|e| e.to_string())
    })
}

fn read_xlsx(bytes: &[u8]) -> Xlsx<Cursor<Vec<u8>>> {
    open_workbook_from_rs(Cursor::new(bytes.to_vec())).expect("Failed to open xlsx from buffer")
}

fn noon_on_april_sixth() -> Value {
    let dt = chrono::NaiveDate::from_ymd_opt(2026, 4, 6)
        .expect("valid date")
        .and_hms_opt(9, 1, 34)
        .expect("valid time")
        .and_utc();
    date(dt.timestamp(), dt.timestamp_subsec_nanos())
}

#[test]
fn single_table_creates_sheet1() {
    let table = list(vec![record(vec![("name", string("Alice")), ("age", integer(30))])]);

    let sheets = vec![("Sheet1".to_string(), table)];
    let bytes = write_workbook(sheets, false, span()).expect("write_workbook failed");
    let mut wb = read_xlsx(&bytes);

    assert_eq!(wb.sheet_names(), &["Sheet1"]);

    let range = wb.worksheet_range("Sheet1").expect("Failed to read sheet");
    assert_eq!(range.get_size().0, 2); // header + 1 data row
}

#[test]
fn multi_sheet_from_record() {
    let users = list(vec![record(vec![("name", string("Bob"))])]);
    let orders = list(vec![record(vec![("item", string("Widget")), ("qty", integer(5))])]);

    let sheets = vec![("Users".to_string(), users), ("Orders".to_string(), orders)];
    let bytes = write_workbook(sheets, false, span()).expect("write_workbook failed");
    let wb = read_xlsx(&bytes);

    assert_eq!(wb.sheet_names(), &["Users", "Orders"]);
}

#[test]
fn empty_table_creates_empty_sheet() {
    let table = list(vec![]);
    let sheets = vec![("Empty".to_string(), table)];
    let bytes = write_workbook(sheets, false, span()).expect("write_workbook failed");
    let wb = read_xlsx(&bytes);

    assert_eq!(wb.sheet_names(), &["Empty"]);
}

#[test]
fn raw_mode_no_table() {
    let table = list(vec![record(vec![("x", integer(1))])]);

    let sheets = vec![("Sheet1".to_string(), table)];
    let bytes = write_workbook(sheets, true, span()).expect("write_workbook failed");
    assert!(!bytes.is_empty());
}

#[test]
fn type_mapping_values() {
    let table = list(vec![record(vec![
        ("str", string("hello")),
        ("int", integer(42)),
        ("float", float(2.72)),
        ("bool", boolean(true)),
        ("empty", nothing()),
    ])]);

    let sheets = vec![("Sheet1".to_string(), table)];
    let bytes = write_workbook(sheets, true, span()).expect("write_workbook failed");
    let mut wb = read_xlsx(&bytes);

    let range = wb.worksheet_range("Sheet1").expect("Failed to read sheet");
    let rows: Vec<_> = range.rows().collect();
    assert_eq!(rows.len(), 2);

    let data = &rows[1];
    assert_eq!(data[0], calamine::Data::String("hello".to_string()));
    assert_eq!(data[1], calamine::Data::Float(42.0));
    assert_eq!(data[2], calamine::Data::Float(2.72));
    assert_eq!(data[3], calamine::Data::Bool(true));
    assert_eq!(data[4], calamine::Data::Empty);
}

#[test]
fn rejects_non_table_input() {
    let string_val = string("not a table");
    let sheets = vec![("Sheet1".to_string(), string_val)];
    assert!(write_workbook(sheets, false, span()).is_err());
}

/// One sheet holding one row, under whatever name the test wants to try.
fn one_sheet(name: &str) -> Vec<(String, Value)> {
    let row = record(vec![("a", integer(1))]);
    vec![(name.to_string(), list(vec![row]))]
}

/// The text a user actually reads: title, label and help, joined.
fn failure_label(sheets: Vec<(String, Value)>) -> String {
    let err = match write_workbook(sheets, false, span()) {
        Ok(_) => panic!("expected a rejection"),
        Err(e) => e,
    };
    format!("{} | {} | {}", err.msg, err.label.text, err.help.unwrap_or_default())
}

#[test]
fn sheet_name_error_names_the_forbidden_character() {
    let msg = failure_label(one_sheet("Q1/Q2 2024"));
    assert!(msg.contains("Q1/Q2 2024"), "names the key: {msg}");
    assert!(msg.contains("contains '/'"), "names the character: {msg}");
}

#[test]
fn sheet_name_error_names_every_forbidden_character() {
    let msg = failure_label(one_sheet("a[b]"));
    assert!(msg.contains("'['"), "{msg}");
    assert!(msg.contains("']'"), "{msg}");
}

#[test]
fn sheet_name_error_gives_the_length() {
    let msg = failure_label(one_sheet(&"x".repeat(32)));
    assert!(msg.contains("32 characters"), "counts them: {msg}");
    assert!(msg.contains("31"), "states the limit: {msg}");
}

/// A backslash is both a forbidden character and the one Rust's `Debug`
/// would double, so it proves the message echoes what the user typed.
#[test]
fn sheet_name_error_shows_the_name_as_typed() {
    let msg = failure_label(one_sheet("a\\b"));
    assert!(msg.contains(r#""a\b""#), "no doubled backslash: {msg}");
    assert!(msg.contains("contains '\\'"), "names it once: {msg}");
}

/// The help lists the rules, so it has to list the one just reported.
#[test]
fn sheet_name_help_covers_the_apostrophe_rule() {
    let msg = failure_label(one_sheet("'Q1'"));
    assert!(msg.contains("apostrophe"), "label names it: {msg}");
    assert!(SHEET_NAME_RULES.contains("apostrophe"), "and the help lists it");
}

#[test]
fn sheet_name_error_says_when_it_is_empty() {
    let msg = failure_label(one_sheet(""));
    assert!(msg.contains("empty"), "{msg}");
}

/// Excel folds case, and the writer only notices at save time, where the
/// two keys are no longer available to name.
#[test]
fn duplicate_sheet_names_differing_only_in_case_are_rejected() {
    let sheets = vec![
        ("Ventes".to_string(), list(vec![record(vec![("a", integer(1))])])),
        ("ventes".to_string(), list(vec![record(vec![("a", integer(1))])])),
    ];
    let msg = failure_label(sheets);
    assert!(msg.contains("Ventes"), "{msg}");
    assert!(msg.contains("ventes"), "{msg}");
    assert!(msg.contains("case"), "{msg}");
}

/// The empty-table path creates its worksheet somewhere else, so it needs
/// its own proof that the name is checked the same way.
#[test]
fn an_empty_sheet_still_validates_its_name() {
    let sheets = vec![("x/y".to_string(), list(vec![]))];
    let msg = failure_label(sheets);
    assert!(msg.contains("contains '/'"), "{msg}");
}

#[test]
fn date_column_is_wide_enough_for_its_format() {
    let table = list(vec![record(vec![("d", noon_on_april_sixth())])]);
    let sheets = vec![("Sheet1".to_string(), table)];
    let bytes = write_workbook(sheets, true, span()).expect("write_workbook failed");

    let mut archive = zip::ZipArchive::new(Cursor::new(bytes)).expect("output is not a zip archive");
    let mut xml = String::new();
    archive
        .by_name("xl/worksheets/sheet1.xml")
        .expect("no sheet1.xml")
        .read_to_string(&mut xml)
        .expect("sheet1.xml is not utf-8");

    let width: f64 = xml
        .split("width=\"")
        .nth(1)
        .and_then(|rest| rest.split('"').next())
        .expect("no column width recorded")
        .parse()
        .expect("width is not a number");

    // autofit sizes a datetime from a fixed 68-pixel guess, blind to the format
    // applied to it. Anything narrower than the format renders as ### in Excel.
    let needed = DATE_NUM_FORMAT.len() as f64;
    assert!(width >= needed, "date column is {width} wide, too narrow for {DATE_NUM_FORMAT}");
}

#[test]
fn date_written_as_excel_date() {
    let table = list(vec![record(vec![("modified", noon_on_april_sixth())])]);

    let sheets = vec![("Sheet1".to_string(), table)];
    let bytes = write_workbook(sheets, true, span()).expect("write_workbook failed");
    let mut wb = read_xlsx(&bytes);

    let range = wb.worksheet_range("Sheet1").expect("Failed to read sheet");
    let rows: Vec<_> = range.rows().collect();
    let cell = &rows[1][0];

    assert!(
        matches!(cell, calamine::Data::DateTime(_) | calamine::Data::Float(_)),
        "Expected DateTime or Float (Excel serial date), got {cell:?}",
    );
}

#[test]
fn sparse_records_with_missing_columns() {
    // Row 1 has "a" and "b", row 2 only has "a" — "b" should be empty
    let table = list(vec![
        record(vec![("a", integer(1)), ("b", string("present"))]),
        record(vec![("a", integer(2))]),
    ]);

    let sheets = vec![("Sheet1".to_string(), table)];
    let bytes = write_workbook(sheets, true, span()).expect("write_workbook failed");
    let mut wb = read_xlsx(&bytes);

    let range = wb.worksheet_range("Sheet1").expect("Failed to read sheet");
    let rows: Vec<_> = range.rows().collect();
    assert_eq!(rows.len(), 3); // header + 2 data rows

    // Row 2, column "b" should be empty since the record didn't have it
    assert_eq!(rows[2][1], calamine::Data::Empty);
}

#[test]
fn mixed_types_in_same_column() {
    // Column "val" has an int in row 1, a string in row 2, nothing in row 3
    let table = list(vec![
        record(vec![("val", integer(42))]),
        record(vec![("val", string("hello"))]),
        record(vec![("val", nothing())]),
    ]);

    let sheets = vec![("Sheet1".to_string(), table)];
    let bytes = write_workbook(sheets, true, span()).expect("write_workbook failed");
    let mut wb = read_xlsx(&bytes);

    let range = wb.worksheet_range("Sheet1").expect("Failed to read sheet");
    let rows: Vec<_> = range.rows().collect();

    assert_eq!(rows[1][0], calamine::Data::Float(42.0));
    assert_eq!(rows[2][0], calamine::Data::String("hello".to_string()));
    // Row 3 (nothing) — calamine may trim trailing empty rows,
    // so just verify the first two data rows are correct
}

