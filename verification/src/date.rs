//! Calendar dates, and the search for a date inside free text.

use vstd::prelude::*;
use crate::pattern::{escape, escaped, regex_compiles, regex_first_match, Pattern};
use crate::text::{from_chars, push_chars, to_chars};

verus! {

/// A calendar date: a year, a month counted from 1 and a day of the month
/// counted from 1.
#[derive(Clone, Copy, Debug, PartialEq, Eq, Structural)]
pub struct Date {
    pub year: i32,
    pub month: u32,
    pub day: u32,
}

impl Date {
    /// The date with the given year, month and day.
    pub fn from_ymd(year: i32, month: u32, day: u32) -> (date: Date)
        ensures
            date == (Date { year, month, day }),
    {
        Date { year, month, day }
    }
}

/// The date that `chrono` reads out of the whole of `text` under the
/// `strftime` format `format`, if it reads one.
pub uninterp spec fn chrono_date(text: Seq<char>, format: Seq<char>) -> Option<Date>;

/// `chrono::NaiveDate::parse_from_str`: the date that the whole text holds
/// under the format, as year, month and day; `None` where the text does not
/// follow the format or names no day of the calendar.
#[verifier::external_body]
fn chrono_parse(text: &str, format: &str) -> (date: Option<Date>)
    ensures
        date == chrono_date(text@, format@),
{
    match chrono::NaiveDate::parse_from_str(text, format) {
        Ok(date) => Some(
            Date {
                year: chrono::Datelike::year(&date),
                month: chrono::Datelike::month(&date),
                day: chrono::Datelike::day(&date),
            },
        ),
        Err(_) => None,
    }
}

/// Why no date was read out of a text.
#[derive(Clone, Copy, Debug, PartialEq, Eq, Structural)]
pub enum DateError {
    /// The format gives no regular expression that the
    /// compiler accepts.
    Pattern,
    /// Nothing in the text has the shape of the format.
    NotFound,
    /// What has the shape of the format is no date.
    Invalid,
}

impl DateError {
    /// The error in words.
    pub fn message(&self) -> (message: &'static str)
        ensures
            message@ == match self {
                DateError::Pattern => "The date format gives no valid pattern"@,
                DateError::NotFound => "No date found"@,
                DateError::Invalid => "The date found is not valid"@,
            },
    {
        match self {
            DateError::Pattern => "The date format gives no valid pattern",
            DateError::NotFound => "No date found",
            DateError::Invalid => "The date found is not valid",
        }
    }
}

/// Whether a verb of the format, a `%` with the character after it, stands
/// in the escaped format `text` at `at`.
pub open spec fn verb_at(text: Seq<char>, at: int) -> bool {
    0 <= at && at + 2 <= text.len() && text[at] == '%' && text[at + 1] != '\n'
}

/// The expression that finds what the verb `%c` stands for: digits for a
/// year, a month or a day in numbers, letters for the name of a month, and
/// anything without a space for every other verb.
pub open spec fn verb_locator(c: char) -> Seq<char> {
    if c == 'Y' || c == 'm' || c == 'd' {
        "\\d+"@
    } else if c == 'b' || c == 'B' {
        "\\w+"@
    } else {
        "\\S+"@
    }
}

/// The part of the escaped format `text` from `at` on, with each verb
/// replaced by the expression that finds what it stands for.
pub open spec fn verbs_replaced(text: Seq<char>, at: int) -> Seq<char>
    decreases text.len() - at,
{
    if at < 0 || at >= text.len() {
        Seq::empty()
    } else if verb_at(text, at) {
        verb_locator(text[at + 1]) + verbs_replaced(text, at + 2)
    } else {
        seq![text[at]] + verbs_replaced(text, at + 1)
    }
}

/// The regular expression that finds in a text what has the shape of the
/// date format `format`: the format taken literally but for its verbs.
pub open spec fn locator(format: Seq<char>) -> Seq<char> {
    verbs_replaced(escaped(format), 0)
}

/// What `parse_date` answers: the date that the first stretch of `input`
/// with the shape of `format` holds, or why there is none.
pub open spec fn spec_parse_date(format: Seq<char>, input: Seq<char>) -> Result<Date, DateError> {
    if !regex_compiles(locator(format)) {
        Err(DateError::Pattern)
    } else {
        match regex_first_match(locator(format), input) {
            None => Err(DateError::NotFound),
            Some(found) => match chrono_date(found, format) {
                None => Err(DateError::Invalid),
                Some(date) => Ok(date),
            },
        }
    }
}

/// Replaces each verb of the escaped format `text` by the expression that
/// finds what it stands for.
fn replace_verbs(text: &Vec<char>) -> (out: Vec<char>)
    ensures
        out@ == verbs_replaced(text@, 0),
{
    let mut out: Vec<char> = Vec::new();
    let n = text.len();
    let mut at: usize = 0;
    while at < n
        invariant
            n == text.len(),
            at <= n,
            out@ + verbs_replaced(text@, at as int) == verbs_replaced(text@, 0),
        decreases n - at,
    {
        let ghost before = out@;
        let ghost here = verbs_replaced(text@, at as int);
        if text[at] == '%' && n - at >= 2 && text[at + 1] != '\n' {
            let c = text[at + 1];
            if c == 'Y' || c == 'm' || c == 'd' {
                push_chars(&mut out, "\\d+");
            } else if c == 'b' || c == 'B' {
                push_chars(&mut out, "\\w+");
            } else {
                push_chars(&mut out, "\\S+");
            }
            at += 2;
        } else {
            out.push(text[at]);
            assert(out@ =~= before + seq![text@[at as int]]);
            at += 1;
        }
        assert(out@ + verbs_replaced(text@, at as int) =~= before + here);
    }
    assert(out@ + Seq::<char>::empty() =~= out@);
    out
}

/// Finds in `input` the first stretch that has the shape of the date
/// format `format`, and reads it strictly as a date of that format.
pub fn parse_date(format: &str, input: &str) -> (date: Result<Date, DateError>)
    ensures
        date == spec_parse_date(format@, input@),
{
    let quoted = escape(format);
    let expression = from_chars(&replace_verbs(&to_chars(quoted.as_str())));
    match Pattern::compile(expression.as_str()) {
        Err(_) => Err(DateError::Pattern),
        Ok(pattern) => match pattern.find(input) {
            None => Err(DateError::NotFound),
            Some(found) => match chrono_parse(found.as_str(), format) {
                None => Err(DateError::Invalid),
                Some(date) => Ok(date),
            },
        },
    }
}

} // verus!
