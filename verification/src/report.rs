//! The lines of the directory service's access report.
//!
//! A report is a title line, a dashed rule, one record line per account
//! and a closing line. A record line reads: one to three digits, blanks,
//! the account (or host mask), blanks, a `+` and a run of access letters;
//! whatever follows the letters is an annotation and is not read.

use vstd::prelude::*;
use crate::text::{chars_of, has_prefix, slice_of, string_of};

verus! {

/// How a dashed rule line begins.
pub const RULE: &'static str = "--------------";

/// How the title line of the report begins.
pub const TITLE: &'static str = "Entry    Nickname/Host";

/// How the closing line of a report begins.
pub const CLOSING: &'static str = "End of";

/// The kinds of character that the grammar of a record line tells apart.
#[derive(Clone, Copy, Debug, PartialEq, Eq)]
pub enum CharClass {
    /// A decimal digit, `0` to `9`.
    Digit,
    /// A blank: any character with the Unicode property White_Space.
    Blank,
    /// Any character that is not a blank.
    Solid,
    /// A letter, `A` to `Z` or `a` to `z`.
    Letter,
}

/// Whether `c` has the Unicode property White_Space.
pub open spec fn is_blank(c: char) -> bool {
    ||| '\u{9}' <= c <= '\u{d}'
    ||| c == ' '
    ||| c == '\u{85}'
    ||| c == '\u{a0}'
    ||| c == '\u{1680}'
    ||| '\u{2000}' <= c <= '\u{200a}'
    ||| c == '\u{2028}'
    ||| c == '\u{2029}'
    ||| c == '\u{202f}'
    ||| c == '\u{205f}'
    ||| c == '\u{3000}'
}

impl CharClass {
    /// Whether `c` belongs to the class.
    pub open spec fn has(self, c: char) -> bool {
        match self {
            CharClass::Digit => '0' <= c <= '9',
            CharClass::Blank => is_blank(c),
            CharClass::Solid => !is_blank(c),
            CharClass::Letter => ('A' <= c <= 'Z') || ('a' <= c <= 'z'),
        }
    }

    /// Whether `c` belongs to the class.
    pub fn holds(self, c: char) -> (r: bool)
        ensures
            r == self.has(c),
    {
        let blank = ('\u{9}' <= c && c <= '\u{d}') || c == ' ' || c == '\u{85}' || c == '\u{a0}'
            || c == '\u{1680}' || ('\u{2000}' <= c && c <= '\u{200a}') || c == '\u{2028}' || c
            == '\u{2029}' || c == '\u{202f}' || c == '\u{205f}' || c == '\u{3000}';
        match self {
            CharClass::Digit => '0' <= c && c <= '9',
            CharClass::Blank => blank,
            CharClass::Solid => !blank,
            CharClass::Letter => ('A' <= c && c <= 'Z') || ('a' <= c && c <= 'z'),
        }
    }
}

/// Where the longest run of characters of `class` that starts at `from`
/// ends: the index of the first character at or after `from` that is not of
/// the class, or the length of the line.
pub open spec fn run_end(line: Seq<char>, from: int, class: CharClass) -> int
    decreases line.len() - from,
{
    if 0 <= from < line.len() && class.has(line[from]) {
        run_end(line, from + 1, class)
    } else {
        from
    }
}

/// What a record line reports: an account and the letters it holds.
pub struct Record {
    pub account: Seq<char>,
    pub letters: Seq<char>,
}

/// The record that `line` holds, if it is a record line.
pub open spec fn record_of(line: Seq<char>) -> Option<Record> {
    let digits = run_end(line, 0, CharClass::Digit);
    let start = run_end(line, digits, CharClass::Blank);
    let end = run_end(line, start, CharClass::Solid);
    let plus = run_end(line, end, CharClass::Blank);
    let last = run_end(line, plus + 1, CharClass::Letter);
    if 1 <= digits <= 3 && digits < start && start < end && end < plus && plus < line.len()
        && line[plus] == '+' && plus + 1 < last {
        Some(Record { account: line.subrange(start, end), letters: line.subrange(plus + 1, last) })
    } else {
        None
    }
}

/// Whether `line` is the title line or a dashed rule.
pub open spec fn is_heading(line: Seq<char>) -> bool {
    RULE@.is_prefix_of(line) || TITLE@.is_prefix_of(line)
}

/// Whether `line` closes a report.
pub open spec fn is_closing(line: Seq<char>) -> bool {
    CLOSING@.is_prefix_of(line)
}

/// Finds where the run of `class` that starts at `from` ends.
pub fn scan(line: &Vec<char>, from: usize, class: CharClass) -> (end: usize)
    requires
        from <= line.len(),
    ensures
        end == run_end(line@, from as int, class),
        from <= end <= line.len(),
{
    let mut i: usize = from;
    while i < line.len() && class.holds(line[i])
        invariant
            from <= i <= line.len(),
            run_end(line@, from as int, class) == run_end(line@, i as int, class),
        decreases line.len() - i,
    {
        i += 1;
    }
    i
}

/// Whether `line` is the title line or a dashed rule.
pub fn heading(line: &Vec<char>) -> (r: bool)
    ensures
        r == is_heading(line@),
{
    let rule = chars_of(RULE);
    let title = chars_of(TITLE);
    has_prefix(line, &rule) || has_prefix(line, &title)
}

/// Whether `line` closes a report.
pub fn closing(line: &Vec<char>) -> (r: bool)
    ensures
        r == is_closing(line@),
{
    let mark = chars_of(CLOSING);
    has_prefix(line, &mark)
}

/// Reads a record line: the account and its letters, or `None` where the
/// line is not a record line.
pub fn read_record(line: &Vec<char>) -> (r: Option<(String, String)>)
    ensures
        match r {
            Some((account, letters)) => record_of(line@) == Some(
                Record { account: account@, letters: letters@ },
            ),
            None => record_of(line@) is None,
        },
{
    let digits = scan(line, 0, CharClass::Digit);
    if digits < 1 || digits > 3 {
        return None;
    }
    let start = scan(line, digits, CharClass::Blank);
    if start == digits {
        return None;
    }
    let end = scan(line, start, CharClass::Solid);
    if end == start {
        return None;
    }
    let plus = scan(line, end, CharClass::Blank);
    if plus == end || plus >= line.len() || line[plus] != '+' {
        return None;
    }
    let last = scan(line, plus + 1, CharClass::Letter);
    if last == plus + 1 {
        return None;
    }
    let account = string_of(&slice_of(line, start, end));
    let letters = string_of(&slice_of(line, plus + 1, last));
    Some((account, letters))
}

/// A line of a report that is neither a heading nor a record.
#[derive(Debug, PartialEq, Eq)]
pub struct ParseError {
    /// The line that could not be read.
    pub line: String,
}

impl ParseError {
    /// The error as a sentence that names the line.
    pub fn message(&self) -> (r: String)
        ensures
            r@ == "Couldn't parse: "@ + self.line@,
    {
        crate::text::join2("Couldn't parse: ", self.line.as_str())
    }
}

} // verus!
