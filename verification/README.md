# nu_plugin_xlsx

A Nushell plugin command, `to xlsx`, that turns a table, or a record of
tables, into the bytes of an Excel workbook: one worksheet per table, each an
Excel Table (auto-filter, banded rows, autofit) unless `--raw` asks for plain
cells.

The library under `src/` is written in Verus, and its contracts are proved.

- `model.rs`: the values a table is made of, and the errors a conversion reports.
- `text.rs`: decimal numbers and quoted lists for messages.
- `sheet_names.rs`: Excel's rules for sheet names, the messages that explain a
  refusal, and the refusal of names that differ only in case.
- `sheet.rs`: one table into one worksheet: the header row, the cells, and the
  Table, date column widths and autofit that finish it.
- `to_xlsx.rs`: which sheets an input makes, and the conversion of those sheets
  into a workbook, one step at a time.
- `xlsx.rs`: the calls into `rust_xlsxwriter` and `chrono`, with the contracts
  the proofs rely on.
- `workbook.rs`: the whole conversion, `write_workbook`, with its law.

Floating point stays outside the library. `Conversion::step` goes on until it
is done, fails, or asks for a float or a duration to be written at a cell;
`write_workbook` runs those steps and writes each such number with a function
its caller passes in, which writes that one cell.

`app/` holds the plugin binary: the Nushell protocol, the conversion of shell
values into the library's model, and the function that writes the numbers.
