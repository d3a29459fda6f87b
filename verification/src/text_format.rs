//! Writing numbers, dates and quoted names into messages.
use vstd::prelude::*;

use crate::date::Date;
use crate::text::push_char;

use chrono::NaiveDate;

verus! {

/// The character of a decimal digit.
pub open spec fn digit_char(d: int) -> char {
    if d == 0 {
        '0'
    } else if d == 1 {
        '1'
    } else if d == 2 {
        '2'
    } else if d == 3 {
        '3'
    } else if d == 4 {
        '4'
    } else if d == 5 {
        '5'
    } else if d == 6 {
        '6'
    } else if d == 7 {
        '7'
    } else if d == 8 {
        '8'
    } else {
        '9'
    }
}

/// The decimal digits of `n`, without leading zeros.
pub open spec fn decimal(n: nat) -> Seq<char>
    decreases n,
{
    if n < 10 {
        seq![digit_char(n as int)]
    } else {
        decimal(n / 10).push(digit_char((n % 10) as int))
    }
}

/// The text that `chrono` displays for a date (`2026-08-28`).
pub uninterp spec fn iso_date(year: int, month: int, day: int) -> Seq<char>;

/// The text that `chrono` displays for `date`.
pub open spec fn date_text(date: Date) -> Seq<char> {
    iso_date(date.year as int, date.month as int, date.day as int)
}

/// The text that `{:?}` shows for a string: quoted, with special characters escaped.
pub uninterp spec fn debug_text(s: Seq<char>) -> Seq<char>;

/// The character of the decimal digit `d`.
pub fn digit(d: u64) -> (c: char)
    requires
        d < 10,
    ensures
        c == digit_char(d as int),
{
    match d {
        0 => '0',
        1 => '1',
        2 => '2',
        3 => '3',
        4 => '4',
        5 => '5',
        6 => '6',
        7 => '7',
        8 => '8',
        _ => '9',
    }
}

/// Appends the decimal digits of `n`.
pub fn describe_number(s: &mut String, n: u64)
    ensures
        final(s)@ == old(s)@ + decimal(n as nat),
    decreases n,
{
    if n < 10 {
        push_char(s, digit(n));
        assert(old(s)@.push(digit_char(n as int)) =~= old(s)@ + decimal(n as nat));
    } else {
        describe_number(s, n / 10);
        push_char(s, digit(n % 10));
        assert(old(s)@ + decimal((n / 10) as nat) + seq![digit_char((n % 10) as int)] =~= old(s)@
            + decimal(n as nat));
    }
}

/// Appends the text `chrono` displays for `date`.
pub fn describe_date(s: &mut String, date: Date)
    requires
        date.is_valid(),
    ensures
        final(s)@ == old(s)@ + date_text(date),
{
    let text = chrono_date_text(date);
    s.append(text.as_str());
}

/// Appends `value` quoted as `{:?}` shows it.
pub fn describe_quoted(s: &mut String, value: &str)
    ensures
        final(s)@ == old(s)@ + debug_text(value@),
{
    let text = debug_quoted(value);
    s.append(text.as_str());
}

/// Calls `chrono::NaiveDate`'s `Display`; its text is named by `iso_date`.
#[verifier::external_body]
fn chrono_date_text(date: Date) -> (text: String)
    requires
        date.is_valid(),
    ensures
        text@ == iso_date(date.year as int, date.month as int, date.day as int),
{
    NaiveDate::from_ymd_opt(date.year, date.month, date.day).unwrap().to_string()
}

/// Calls the `Debug` formatting of `str` through `format!("{:?}")`; its text is named by
/// `debug_text`.
#[verifier::external_body]
fn debug_quoted(value: &str) -> (text: String)
    ensures
        text@ == debug_text(value@),
{
    format!("{:?}", value)
}

} // verus!
