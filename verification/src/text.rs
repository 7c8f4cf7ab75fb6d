//! Building the texts of messages: decimal numbers and quoted lists.

use vstd::prelude::*;
use vstd::string::StringExecFns;

use crate::xlsx::push_char;

verus! {

/// The character of a decimal digit.
pub open spec fn digit_char(d: nat) -> char {
    if d == 0 {
        '0'
    } else if d == 1 {
        '1'
    } else if d == 2 {
        '2'
    } else if d == 3 {
        '3'
    } else if d == 4 {
        '4'
    } else if d == 5 {
        '5'
    } else if d == 6 {
        '6'
    } else if d == 7 {
        '7'
    } else if d == 8 {
        '8'
    } else {
        '9'
    }
}

/// A natural number written in decimal, without leading zeros.
pub open spec fn decimal(n: nat) -> Seq<char>
    decreases n,
{
    if n < 10 {
        seq![digit_char(n)]
    } else {
        decimal(n / 10).push(digit_char(n % 10))
    }
}

fn exec_digit_char(d: usize) -> (c: char)
    requires
        d < 10,
    ensures
        c == digit_char(d as nat),
{
    if d == 0 {
        '0'
    } else if d == 1 {
        '1'
    } else if d == 2 {
        '2'
    } else if d == 3 {
        '3'
    } else if d == 4 {
        '4'
    } else if d == 5 {
        '5'
    } else if d == 6 {
        '6'
    } else if d == 7 {
        '7'
    } else if d == 8 {
        '8'
    } else {
        '9'
    }
}

/// Writes a number in decimal.
pub fn decimal_string(n: usize) -> (s: String)
    ensures
        s@ == decimal(n as nat),
    decreases n,
{
    if n < 10 {
        let mut s = String::new();
        push_char(&mut s, exec_digit_char(n));
        assert(s@ =~= decimal(n as nat));
        s
    } else {
        let mut s = decimal_string(n / 10);
        push_char(&mut s, exec_digit_char(n % 10));
        s
    }
}

/// A character between apostrophes: `'c'`.
pub open spec fn quoted_char(c: char) -> Seq<char> {
    seq!['\'', c, '\'']
}

/// Characters each between apostrophes, joined by a comma and a space.
pub open spec fn quoted_list(cs: Seq<char>) -> Seq<char>
    decreases cs.len(),
{
    if cs.len() == 0 {
        Seq::empty()
    } else if cs.len() == 1 {
        quoted_char(cs[0])
    } else {
        quoted_list(cs.drop_last()) + ", "@ + quoted_char(cs.last())
    }
}

/// Appends a character between apostrophes.
pub fn push_quoted(s: &mut String, c: char)
    ensures
        final(s)@ == old(s)@ + quoted_char(c),
{
    push_char(s, '\'');
    push_char(s, c);
    push_char(s, '\'');
    assert(s@ =~= old(s)@ + quoted_char(c));
}

/// `"` followed by a text and a closing `"`.
pub open spec fn in_quotes(s: Seq<char>) -> Seq<char> {
    seq!['"'] + s + seq!['"']
}

/// Appends a text between double quotes.
pub fn push_in_quotes(out: &mut String, s: &str)
    ensures
        final(out)@ == old(out)@ + in_quotes(s@),
{
    push_char(out, '"');
    out.append(s);
    push_char(out, '"');
    assert(out@ =~= old(out)@ + in_quotes(s@));
}

} // verus!
