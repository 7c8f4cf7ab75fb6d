//! Excel's rules for sheet names, and the messages that explain a refusal.

use vstd::prelude::*;
use vstd::string::StringExecFns;

use crate::model::{error_view, ErrorView, LabeledError, ErrorLabel, Span, Value};
use crate::text::{decimal, decimal_string, in_quotes, push_in_quotes, push_quoted, quoted_list};
use crate::xlsx::{column_widths, set_sheet_name, sheet_autofiltered, sizes_by_default, sheet_cells, sheet_tables, sheet_title, str_lowercase, to_lowercase, utf16_len};
use rust_xlsxwriter::Worksheet;

verus! {

/// The rules a sheet name must keep, as the help of an error states them.
pub const SHEET_NAME_RULES: &'static str = "Excel sheet names are 1 to 31 characters, cannot contain [ ] : * ? / \\, cannot start or end with an apostrophe, and must be unique regardless of case.";

/// Which rule the writer found a sheet name to break.
#[derive(Debug)]
pub enum SheetNameError {
    Blank,
    TooLong,
    InvalidCharacter,
    Apostrophe,
    /// Any other refusal, in the writer's own words.
    Other(String),
}

/// The characters Excel forbids in a sheet name.
pub open spec fn is_forbidden(c: char) -> bool {
    c == '[' || c == ']' || c == ':' || c == '*' || c == '?' || c == '/' || c == '\\'
}

/// Which rule a sheet name breaks first, if any: it must not be empty, must
/// be at most 31 UTF-16 code units long, must hold no forbidden character,
/// and must neither start nor end with an apostrophe.
pub open spec fn sheet_name_rejection(name: Seq<char>) -> Option<SheetNameError> {
    if name.len() == 0 {
        Some(SheetNameError::Blank)
    } else if utf16_len(name) > 31 {
        Some(SheetNameError::TooLong)
    } else if exists|i: int| 0 <= i < name.len() && is_forbidden(#[trigger] name[i]) {
        Some(SheetNameError::InvalidCharacter)
    } else if name[0] == '\'' || name.last() == '\'' {
        Some(SheetNameError::Apostrophe)
    } else {
        None
    }
}

/// The forbidden characters of a text, in order.
pub open spec fn forbidden_chars(s: Seq<char>) -> Seq<char>
    decreases s.len(),
{
    if s.len() == 0 {
        Seq::empty()
    } else if is_forbidden(s.last()) {
        forbidden_chars(s.drop_last()).push(s.last())
    } else {
        forbidden_chars(s.drop_last())
    }
}

/// What a user reads about the rule a sheet name broke.
pub open spec fn problem_text(name: Seq<char>, err: SheetNameError) -> Seq<char> {
    match err {
        SheetNameError::Blank => "the name is empty"@,
        SheetNameError::TooLong => decimal(name.len()) + " characters, and Excel allows 31"@,
        SheetNameError::InvalidCharacter => if forbidden_chars(name).len() == 0 {
            "contains a character Excel forbids"@
        } else {
            "contains "@ + quoted_list(forbidden_chars(name))
        },
        SheetNameError::Apostrophe => "starts or ends with an apostrophe"@,
        SheetNameError::Other(words) => words@,
    }
}

fn is_forbidden_exec(c: char) -> (r: bool)
    ensures
        r == is_forbidden(c),
{
    c == '[' || c == ']' || c == ':' || c == '*' || c == '?' || c == '/' || c == '\\'
}

/// Says which of Excel's sheet-name rules a name broke, in the user's terms:
/// the forbidden characters it holds, or how many characters it has.
pub fn sheet_name_problem(name: &str, err: &SheetNameError) -> (r: String)
    ensures
        r@ == problem_text(name@, *err),
{
    match err {
        SheetNameError::Blank => "the name is empty".to_owned(),
        SheetNameError::TooLong => {
            let mut r = decimal_string(name.unicode_len());
            r.append(" characters, and Excel allows 31");
            r
        },
        SheetNameError::InvalidCharacter => {
            let n = name.unicode_len();
            let mut listed = String::new();
            let mut count: usize = 0;
            let mut i: usize = 0;
            while i < n
                invariant
                    n == name@.len(),
                    i <= n,
                    count == forbidden_chars(name@.take(i as int)).len(),
                    count <= i,
                    listed@ == quoted_list(forbidden_chars(name@.take(i as int))),
                decreases n - i,
            {
                let c = name.get_char(i);
                proof {
                    assert(name@.take(i + 1).drop_last() =~= name@.take(i as int));
                    assert(name@.take(i + 1).last() == c);
                }
                if is_forbidden_exec(c) {
                    if count > 0 {
                        listed.append(", ");
                    }
                    push_quoted(&mut listed, c);
                    proof {
                        let before = forbidden_chars(name@.take(i as int));
                        let after = forbidden_chars(name@.take(i + 1));
                        assert(after == before.push(c));
                        assert(after.drop_last() =~= before);
                        if count == 0 {
                            assert(listed@ =~= quoted_list(after));
                        } else {
                            assert(listed@ =~= quoted_list(after));
                        }
                    }
                    count = count + 1;
                }
                i = i + 1;
            }
            proof {
                assert(name@.take(n as int) =~= name@);
            }
            if count == 0 {
                "contains a character Excel forbids".to_owned()
            } else {
                let mut r = "contains ".to_owned();
                r.append(listed.as_str());
                r
            }
        },
        SheetNameError::Apostrophe => "starts or ends with an apostrophe".to_owned(),
        SheetNameError::Other(words) => words.clone(),
    }
}

/// The title of the error for a refused sheet name: what failed, then the
/// name between double quotes.
pub open spec fn refused_name_title(name: Seq<char>) -> Seq<char> {
    "Failed to set sheet name "@ + in_quotes(name)
}

/// The error for a sheet name that breaks a rule, if it breaks one.
pub open spec fn name_error(name: Seq<char>, span: Span) -> Option<ErrorView> {
    match sheet_name_rejection(name) {
        None => None,
        Some(err) => Some(
            error_view(refused_name_title(name), problem_text(name, err), span, Some(SHEET_NAME_RULES@)),
        ),
    }
}

/// Names a worksheet, or explains which of Excel's rules the name broke.
pub fn name_sheet(sheet: &mut Worksheet, name: &str, span: Span) -> (r: Result<(), LabeledError>)
    ensures
        sheet_cells(*final(sheet)) == sheet_cells(*old(sheet)),
        sheet_tables(*final(sheet)) == sheet_tables(*old(sheet)),
        sheet_autofiltered(*final(sheet)) == sheet_autofiltered(*old(sheet)),
        sizes_by_default(*final(sheet)) == sizes_by_default(*old(sheet)),
        column_widths(*final(sheet)) == column_widths(*old(sheet)),
        sheet_title(*final(sheet)) == if r is Ok {
            name@
        } else {
            sheet_title(*old(sheet))
        },
        match r {
            Ok(()) => name_error(name@, span) is None,
            Err(e) => name_error(name@, span) == Some(e@),
        },
{
    match set_sheet_name(sheet, name) {
        Ok(()) => Ok(()),
        Err(err) => {
            let mut msg = "Failed to set sheet name ".to_owned();
            push_in_quotes(&mut msg, name);
            let label = sheet_name_problem(name, &err);
            let help = SHEET_NAME_RULES.to_owned();
            let e = LabeledError { msg, label: ErrorLabel { text: label, span }, help: Some(help) };
            proof {
                assert(e@.msg =~= refused_name_title(name@));
            }
            Err(e)
        },
    }
}

/// The names of the sheets, each folded to lowercase.
pub open spec fn folded_names(sheets: Seq<(String, Value)>) -> Seq<Seq<char>> {
    Seq::new(sheets.len(), |i: int| str_lowercase(sheets[i].0@))
}

/// Whether no two of the first `n` folded names are equal.
pub open spec fn distinct_up_to(folded: Seq<Seq<char>>, n: int) -> bool {
    forall|a: int, b: int| 0 <= a < b < n ==> folded[a] != folded[b]
}

/// What the error for two sheet names that fold to the same text says.
pub open spec fn duplicate_detail(first: Seq<char>, name: Seq<char>) -> Seq<char> {
    if first == name {
        in_quotes(name) + " appears twice"@
    } else {
        in_quotes(first) + " and "@ + in_quotes(name) + " differ only in case"@
    }
}

pub open spec fn duplicate_error(first: Seq<char>, name: Seq<char>, span: Span) -> ErrorView {
    error_view("Duplicate sheet name"@, duplicate_detail(first, name), span, Some(SHEET_NAME_RULES@))
}

/// The first position among the texts that holds the given one.
fn position_of(texts: &Vec<String>, wanted: &String) -> (r: Option<usize>)
    ensures
        match r {
            Some(m) => m < texts@.len() && texts@[m as int]@ == wanted@ && forall|m2: int|
                0 <= m2 < m ==> (#[trigger] texts@[m2])@ != wanted@,
            None => forall|m2: int| 0 <= m2 < texts@.len() ==> (#[trigger] texts@[m2])@ != wanted@,
        },
{
    let mut m: usize = 0;
    while m < texts.len()
        invariant
            m <= texts@.len(),
            forall|m2: int| 0 <= m2 < m ==> (#[trigger] texts@[m2])@ != wanted@,
        decreases texts@.len() - m,
    {
        if texts[m] == *wanted {
            return Some(m);
        }
        m = m + 1;
    }
    None
}

/// The label of the error for two sheet names that fold to the same text.
fn duplicate_label(first: &String, name: &String) -> (r: String)
    ensures
        r@ == duplicate_detail(first@, name@),
{
    let mut detail = String::new();
    if *first == *name {
        push_in_quotes(&mut detail, name.as_str());
        detail.append(" appears twice");
    } else {
        push_in_quotes(&mut detail, first.as_str());
        detail.append(" and ");
        push_in_quotes(&mut detail, name.as_str());
        detail.append(" differ only in case");
    }
    proof {
        if first@ == name@ {
            assert(detail@ =~= duplicate_detail(first@, name@));
        } else {
            assert(detail@ =~= duplicate_detail(first@, name@));
        }
    }
    detail
}

/// Refuses two sheet names that Excel would take for the same one, because
/// it matches names without regard to case. The error names the first sheet
/// whose name repeats an earlier one, and the earliest sheet it repeats.
pub fn reject_duplicate_sheet_names(sheets: &Vec<(String, Value)>, span: Span) -> (r: Result<(), LabeledError>)
    ensures
        match r {
            Ok(()) => distinct_up_to(folded_names(sheets@), sheets@.len() as int),
            Err(e) => exists|m: int, j: int|
                #![trigger folded_names(sheets@)[m], folded_names(sheets@)[j]]
                {
                    &&& 0 <= m < j < sheets@.len()
                    &&& folded_names(sheets@)[m] == folded_names(sheets@)[j]
                    &&& forall|m2: int| 0 <= m2 < m ==> folded_names(sheets@)[m2] != folded_names(sheets@)[j]
                    &&& distinct_up_to(folded_names(sheets@), j)
                    &&& e@ == duplicate_error(sheets@[m].0@, sheets@[j].0@, span)
                },
        },
{
    let ghost folded = folded_names(sheets@);
    let mut seen: Vec<String> = Vec::new();
    let mut j: usize = 0;
    while j < sheets.len()
        invariant
            j <= sheets@.len(),
            folded == folded_names(sheets@),
            seen@.len() == j,
            forall|a: int| 0 <= a < j ==> #[trigger] seen@[a]@ == folded[a],
            distinct_up_to(folded, j as int),
        decreases sheets@.len() - j,
    {
        let name = &sheets[j].0;
        let low = to_lowercase(name.as_str());
        match position_of(&seen, &low) {
            Some(m) => {
                let detail = duplicate_label(&sheets[m].0, name);
                let e = LabeledError {
                    msg: "Duplicate sheet name".to_owned(),
                    label: ErrorLabel { text: detail, span },
                    help: Some(SHEET_NAME_RULES.to_owned()),
                };
                proof {
                    assert(folded[m as int] == folded[j as int]);
                    assert(forall|m2: int| 0 <= m2 < m ==> folded[m2] != folded[j as int]) by {
                        assert(forall|m2: int| 0 <= m2 < m ==> (#[trigger] seen@[m2])@ != low@);
                    }
                    assert(e@ == duplicate_error(sheets@[m as int].0@, sheets@[j as int].0@, span));
                }
                return Err(e);
            },
            None => {
                proof {
                    assert forall|a: int, b: int| 0 <= a < b < j + 1 implies folded[a] != folded[b] by {
                        if b == j {
                            assert(seen@[a]@ != low@);
                        }
                    }
                }
                seen.push(low);
                j = j + 1;
            },
        }
    }
    Ok(())
}

} // verus!
