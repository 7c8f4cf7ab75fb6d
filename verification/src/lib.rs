//! Writes tables of Nushell values as Excel workbooks: one worksheet per
//! table, each a real Excel Table with typed cells.

use vstd::prelude::*;

pub mod model;
pub mod sheet;
pub mod sheet_names;
pub mod text;
pub mod to_xlsx;
pub mod workbook;
pub mod xlsx;

pub use to_xlsx::ToXlsx;

verus! {

/// The plugin that offers the `to xlsx` command.
pub struct XlsxPlugin;

} // verus!
