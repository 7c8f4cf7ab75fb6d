//! The values a table is made of, and the errors a conversion reports.

use vstd::prelude::*;

verus! {

/// A region of the command line or of the input that a value or an error
/// points at.
#[derive(Clone, Copy, Debug, PartialEq, Eq, Structural)]
pub struct Span {
    pub start: usize,
    pub end: usize,
}

/// The first timestamp, in seconds since the Unix epoch, that has a calendar
/// date: January 1st of the year -262143.
pub const MIN_TIMESTAMP: i64 = -8_334_601_228_800;

/// The last timestamp, in seconds since the Unix epoch, that has a calendar
/// date: the last second of December 31st of the year 262142.
pub const MAX_TIMESTAMP: i64 = 8_210_266_876_799;

/// A point in time in UTC: whole seconds since the Unix epoch and the
/// nanoseconds past that second. Nanoseconds from one billion up stand for a
/// leap second, which only the last second of a minute may have.
#[derive(Clone, Copy, Debug)]
pub struct DateStamp {
    secs: i64,
    nanos: u32,
}

/// Whether a pair of seconds and nanoseconds names a representable instant.
pub open spec fn stamp_in_range(secs: i64, nanos: u32) -> bool {
    &&& MIN_TIMESTAMP <= secs <= MAX_TIMESTAMP
    &&& nanos < 2_000_000_000
    &&& (nanos >= 1_000_000_000 ==> secs % 60 == 59)
}

impl DateStamp {
    #[verifier::type_invariant]
    spec fn in_range(self) -> bool {
        stamp_in_range(self.secs, self.nanos)
    }

    pub closed spec fn spec_secs(self) -> i64 {
        self.secs
    }

    pub closed spec fn spec_nanos(self) -> u32 {
        self.nanos
    }

    /// Builds a timestamp, or `None` where the pair names no instant.
    pub fn new(secs: i64, nanos: u32) -> (r: Option<DateStamp>)
        ensures
            r is Some <==> stamp_in_range(secs, nanos),
            r matches Some(d) ==> d.spec_secs() == secs && d.spec_nanos() == nanos,
    {
        if secs < MIN_TIMESTAMP || secs > MAX_TIMESTAMP || nanos >= 2_000_000_000 {
            return None;
        }
        // The second within its minute, counted from the minute's start.
        let past_minute: i64 = secs - (secs / 60) * 60;
        let second_of_minute: i64 = if past_minute < 0 {
            past_minute + 60
        } else {
            past_minute
        };
        if nanos < 1_000_000_000 || second_of_minute == 59 {
            Some(DateStamp { secs, nanos })
        } else {
            None
        }
    }

    /// The whole seconds since the Unix epoch.
    pub fn secs(&self) -> (r: i64)
        ensures
            r == self.spec_secs(),
    {
        self.secs
    }

    /// The nanoseconds past the second.
    pub fn nanos(&self) -> (r: u32)
        ensures
            r == self.spec_nanos(),
    {
        self.nanos
    }
}

/// What a value is, as far as writing a worksheet tells values apart.
#[derive(Debug)]
pub enum ValueKind {
    String(String),
    Int(i64),
    /// A float, by the bits of its IEEE-754 encoding.
    Float(u64),
    Bool(bool),
    Date(DateStamp),
    /// A duration, by the bits of the IEEE-754 encoding of its length in seconds.
    Duration(u64),
    /// A file size in bytes.
    Filesize(i64),
    Nothing,
    /// A list; a table is a list of records.
    List(Vec<Value>),
    /// A record: its columns in order, each a name and a value.
    Record(Vec<(String, Value)>),
    /// Any other kind of value: a range, a closure, binary data, and so on.
    Other,
}

/// A value of the shell's data model.
#[derive(Debug)]
pub struct Value {
    pub kind: ValueKind,
    /// The name of the value's type, as the shell prints it (`string`, `list<any>`, ...).
    pub type_desc: String,
    /// The value printed out in full, as one line: what a list, a record or a
    /// value of another kind reads as in a cell.
    pub text: String,
    pub span: Span,
}

/// One label of an error: a text and the span it points at.
#[derive(Clone, Debug)]
pub struct ErrorLabel {
    pub text: String,
    pub span: Span,
}

/// An error for the shell to show: a title, a label on a span, and an
/// optional help text.
#[derive(Clone, Debug)]
pub struct LabeledError {
    pub msg: String,
    pub label: ErrorLabel,
    pub help: Option<String>,
}

/// What an error says, as text.
pub struct ErrorView {
    pub msg: Seq<char>,
    pub label: Seq<char>,
    pub span: Span,
    pub help: Option<Seq<char>>,
}

pub open spec fn help_view(help: Option<String>) -> Option<Seq<char>> {
    match help {
        Some(h) => Some(h@),
        None => None,
    }
}

impl View for LabeledError {
    type V = ErrorView;

    open spec fn view(&self) -> ErrorView {
        ErrorView {
            msg: self.msg@,
            label: self.label.text@,
            span: self.label.span,
            help: help_view(self.help),
        }
    }
}

pub open spec fn error_view(
    msg: Seq<char>,
    label: Seq<char>,
    span: Span,
    help: Option<Seq<char>>,
) -> ErrorView {
    ErrorView { msg, label, span, help }
}

impl LabeledError {
    /// An error with a title, one label and no help.
    pub fn new(msg: String, label: String, span: Span) -> (e: LabeledError)
        ensures
            e@ == error_view(msg@, label@, span, None),
    {
        LabeledError { msg, label: ErrorLabel { text: label, span }, help: None }
    }
}

} // verus!
