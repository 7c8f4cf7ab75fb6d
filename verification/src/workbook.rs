//! A whole conversion: sheets in, the bytes of an xlsx workbook out, with
//! the floats and durations written by a function of the caller.

use vstd::prelude::*;
use rust_xlsxwriter::{Workbook, Worksheet};

use crate::model::{ErrorView, LabeledError, Span, Value};
use crate::sheet::float_bits;
use crate::sheet_names::{distinct_up_to, folded_names};
use crate::to_xlsx::{
    all_written, asked_for, float_cells, duplicate_reported, earlier, failure_explained, float_at, save_failed, saved_file,
    sheets_pass, writes_one_cell, Conversion, Step,
};
use crate::xlsx::{xlsx_sheets, SheetEntry};

verus! {

/// Whether an error is the caller's failure to write a float or duration of
/// the sheets, at that value.
pub open spec fn number_failed(sheets: Seq<(String, Value)>, e: ErrorView) -> bool {
    exists|k: int, r: int, c: int|
        #![trigger float_at(sheets, k, r, c)]
        float_at(sheets, k, r, c) matches Some(v) && e.msg == "Failed to write cell"@ && e.span == v.span
            && e.help is None
}

/// Whether `write_number` was called on a worksheet to write the number of
/// the float or duration at body cell `t` of the sheets, by its sheet,
/// record and column: with that number's bits, at the cell's row and column
/// in the worksheet, and returned `Ok`.
pub open spec fn number_handed<F>(write_number: F, sheets: Seq<(String, Value)>, t: (int, int, int)) -> bool where
    F: Fn(&mut Worksheet, u32, u16, u64) -> Result<(), String>,
 {
    exists|w: &mut Worksheet, o: Result<(), String>|
        #[trigger] write_number.ensures(
            (w, (t.1 + 1) as u32, t.2 as u16, float_bits(float_at(sheets, t.0, t.1, t.2).unwrap())),
            o,
        ) && o is Ok
}

/// Writes the number a conversion asked for with `write_number`, and
/// reports the outcome to the conversion.
fn write_asked_number<F>(conversion: &mut Conversion, row: u32, col: u16, bits: u64, write_number: &F) -> (r:
    Result<(), LabeledError>) where F: Fn(&mut Worksheet, u32, u16, u64) -> Result<(), String>
    requires
        old(conversion).inv(),
        old(conversion).pending_number() == Some((row, col, bits)),
        forall|ws: &mut Worksheet, row: u32, col: u16, bits: u64|
            #[trigger] write_number.requires((ws, row, col, bits)),
        forall|ws: &mut Worksheet, row: u32, col: u16, bits: u64, o: Result<(), String>|
            #[trigger] write_number.ensures((ws, row, col, bits), o) ==> writes_one_cell(*ws, *final(ws), row, col),
    ensures
        final(conversion).inv(),
        final(conversion).sheets() == old(conversion).sheets(),
        final(conversion).span() == old(conversion).span(),
        final(conversion).raw() == old(conversion).raw(),
        final(conversion).pending_number() is None,
        final(conversion).asked() == old(conversion).asked(),
        r matches Err(e) ==> old(conversion).pending_value() matches Some(v) && e@.msg == "Failed to write cell"@
            && e@.span == v.span && e@.help is None,
        r is Ok ==> exists|w: &mut Worksheet, o: Result<(), String>|
            #[trigger] write_number.ensures((w, row, col, bits), o) && o is Ok,
{
    let ghost before = *conversion;
    let outcome = match conversion.pending_sheet() {
        Some(ws) => {
            let written = write_number(ws, row, col, bits);
            proof {
                assert(exists|w: &mut Worksheet| #[trigger] write_number.ensures((w, row, col, bits), written));
            }
            written
        },
        None => Ok(()),
    };
    proof {
        before.lemma_number_write_keeps_inv(conversion.sheet_in_progress());
    }
    let r = conversion.number_written(outcome);
    proof {
        if r is Ok {
            assert(outcome is Ok);
            assert(exists|w: &mut Worksheet| #[trigger] write_number.ensures((w, row, col, bits), outcome));
        }
    }
    r
}

/// Converts sheets into the bytes of an xlsx workbook, by the steps of a
/// `Conversion`, with `write_number` writing each float and duration: it
/// writes the number with the given IEEE-754 bits at the given row and
/// column of a worksheet, changing nothing else of it, and reports the
/// writer's error in words. It succeeds only when the names are distinct
/// regardless of case and every sheet passes its checks and writes, and
/// then the file holds the sheets as written. It fails with the duplicate
/// names, with the first failure of a sheet, with the save refused, or with
/// the caller's failure to write a number.
pub fn write_workbook<F>(sheets: Vec<(String, Value)>, raw: bool, span: Span, write_number: F) -> (r: Result<
    Vec<u8>,
    LabeledError,
>) where F: Fn(&mut Worksheet, u32, u16, u64) -> Result<(), String>
    requires
        forall|ws: &mut Worksheet, row: u32, col: u16, bits: u64|
            #[trigger] write_number.requires((ws, row, col, bits)),
        forall|ws: &mut Worksheet, row: u32, col: u16, bits: u64, o: Result<(), String>|
            #[trigger] write_number.ensures((ws, row, col, bits), o) ==> writes_one_cell(*ws, *final(ws), row, col),
    ensures
        match r {
            Ok(bytes) => {
                &&& distinct_up_to(folded_names(sheets@), sheets@.len() as int)
                &&& sheets_pass(sheets@, raw, span, sheets@.len() as int)
                &&& exists|saved: Seq<SheetEntry>|
                    #[trigger] all_written(sheets@, raw, saved) && xlsx_sheets(bytes@) == saved_file(saved)
                &&& forall|t: (int, int, int)|
                    float_at(sheets@, t.0, t.1, t.2) is Some ==> #[trigger] number_handed(write_number, sheets@, t)
            },
            Err(e) => {
                ||| duplicate_reported(sheets@, span, e@)
                ||| distinct_up_to(folded_names(sheets@), sheets@.len() as int) && {
                    ||| failure_explained(sheets@, raw, span, e@)
                    ||| exists|wb: Workbook| #[trigger] save_failed(sheets@, raw, span, wb, e@)
                    ||| number_failed(sheets@, e@)
                }
            },
        },
{
    let ghost all = sheets@;
    let mut conversion = match Conversion::start(sheets, raw, span) {
        Ok(c) => c,
        Err(e) => {
            return Err(e);
        },
    };
    let ghost mut last: (int, int, int) = (-1, 0, 0);
    loop
        invariant
            conversion.inv(),
            conversion.sheets() == all,
            all == sheets@,
            conversion.span() == span,
            conversion.raw() == raw,
            conversion.pending_number() is None,
            distinct_up_to(folded_names(all), all.len() as int),
            forall|ws: &mut Worksheet, row: u32, col: u16, bits: u64|
                #[trigger] write_number.requires((ws, row, col, bits)),
            forall|ws: &mut Worksheet, row: u32, col: u16, bits: u64, o: Result<(), String>|
                #[trigger] write_number.ensures((ws, row, col, bits), o) ==> writes_one_cell(
                    *ws,
                    *final(ws),
                    row,
                    col,
                ),
            -1 <= last.0 < all.len(),
            0 <= last.1 <= usize::MAX,
            0 <= last.2 <= usize::MAX,
            last.0 == -1 || conversion.asked().contains(last),
            forall|t: (int, int, int)|
                #[trigger] conversion.asked().contains(t) ==> number_handed(write_number, all, t),
        decreases all.len() - last.0, usize::MAX - last.1, usize::MAX - last.2,
    {
        let ghost before_step = conversion;
        match conversion.step() {
            Step::Done(bytes) => {
                proof {
                    assert(all_written(all, raw, conversion.saved_sheets()));
                    reveal(float_cells);
                    assert forall|t: (int, int, int)| float_at(all, t.0, t.1, t.2) is Some implies #[trigger] number_handed(
                        write_number,
                        all,
                        t,
                    ) by {
                        reveal(float_cells);
                        assert(float_cells(all).contains(t));
                        assert(before_step.asked().contains(t));
                    }
                }
                return Ok(bytes);
            },
            Step::Failed(e) => {
                proof {
                    if !failure_explained(all, raw, span, e@) {
                        assert(save_failed(all, raw, span, conversion.saved_workbook(), e@));
                    }
                }
                return Err(e);
            },
            Step::WriteNumber { row, col, bits } => {
                let ghost t = conversion.pending_cell();
                proof {
                    assert(asked_for(before_step, conversion, row, col, bits));
                    assert(last.0 == -1 || earlier(last, t));
                }
                match write_asked_number(&mut conversion, row, col, bits, &write_number) {
                    Ok(()) => {},
                    Err(e) => {
                        proof {
                            assert(float_at(all, t.0, t.1, t.2) is Some);
                        }
                        return Err(e);
                    },
                }
                proof {
                    assert(number_handed(write_number, all, t));
                    last = t;
                }
            },
        }
    }
}

} // verus!
