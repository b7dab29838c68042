//! Calendar dates for post publication.
//!
//! A date is held as plain year, month and day numbers, so that the rest of
//! the crate can compare and render dates with proved contracts.  Only the
//! parsing of a `YYYY-MM-DD` string is delegated to the `chrono` crate.

use vstd::prelude::*;
use crate::text::{dec_str, uint_to_string};
use chrono::Datelike;

verus! {

/// A calendar date: year, month and day as plain numbers.
#[derive(Clone, Copy, PartialEq, Eq, Structural, Debug)]
pub struct Date {
    pub year: i32,
    pub month: u8,
    pub day: u8,
}

impl Date {
    /// Months lie in 1..=12 and days in 1..=31.
    pub open spec fn wf(&self) -> bool {
        1 <= self.month <= 12 && 1 <= self.day <= 31
    }

    /// Chronological order on (year, month, day), lexicographically.
    pub open spec fn le_spec(&self, other: &Date) -> bool {
        if self.year != other.year {
            self.year < other.year
        } else if self.month != other.month {
            self.month < other.month
        } else {
            self.day <= other.day
        }
    }

    /// Decides `le_spec`: whether `self` is on or before `other`.
    pub fn le(&self, other: &Date) -> (r: bool)
        ensures
            r == self.le_spec(other),
    {
        if self.year != other.year {
            self.year < other.year
        } else if self.month != other.month {
            self.month < other.month
        } else {
            self.day <= other.day
        }
    }
}

impl Default for Date {
    /// The Unix epoch, 1970-01-01, like the default date of `chrono`.
    fn default() -> (r: Date)
        ensures
            r == (Date { year: 1970, month: 1, day: 1 }),
            r.wf(),
    {
        Date { year: 1970, month: 1, day: 1 }
    }
}

/// `s` left-padded with zeros to at least `width` characters.
pub open spec fn zero_pad(s: Seq<char>, width: nat) -> Seq<char> {
    if s.len() >= width {
        s
    } else {
        Seq::new((width - s.len()) as nat, |i: int| '0') + s
    }
}

/// The rendering of a date as `YYYY-MM-DD`: the year zero-padded to four
/// digits, with a leading `-` for negative years and a leading `+` for years
/// above 9999; month and day zero-padded to two digits.
pub open spec fn date_str(d: Date) -> Seq<char> {
    year_str(d.year as int) + seq!['-'] + zero_pad(dec_str(d.month as nat), 2) + seq!['-'] + zero_pad(
        dec_str(d.day as nat),
        2,
    )
}

/// The year part of `date_str`.
pub open spec fn year_str(y: int) -> Seq<char> {
    if y < 0 {
        seq!['-'] + zero_pad(dec_str((-y) as nat), 4)
    } else if y > 9999 {
        seq!['+'] + dec_str(y as nat)
    } else {
        zero_pad(dec_str(y as nat), 4)
    }
}

/// Formats `n` in decimal, left-padded with zeros to at least `width`
/// characters.
fn u64_to_padded(n: u64, width: usize) -> (r: String)
    requires
        width <= 8,
    ensures
        r@ == zero_pad(dec_str(n as nat), width as nat),
{
    let digits = uint_to_string(n as u128);
    let len = digits.as_str().unicode_len();
    let mut out = String::new();
    if len < width {
        let mut i: usize = 0;
        while i < width - len
            invariant
                len < width <= 8,
                len == dec_str(n as nat).len(),
                0 <= i <= width - len,
                out@ == Seq::new(i as nat, |k: int| '0'),
            decreases width - len - i,
        {
            proof {
                reveal_strlit("0");
            }
            out.append("0");
            proof {
                assert(out@ =~= Seq::new((i + 1) as nat, |k: int| '0'));
            }
            i = i + 1;
        }
    }
    out.append(digits.as_str());
    proof {
        assert(out@ =~= zero_pad(dec_str(n as nat), width as nat));
    }
    out
}

/// Renders the date as `YYYY-MM-DD`.
pub fn date_to_string(d: &Date) -> (r: String)
    ensures
        r@ == date_str(*d),
{
    let mut out = String::new();
    proof {
        reveal_strlit("-");
        reveal_strlit("+");
    }
    if d.year < 0 {
        out.append("-");
        let mag: u64 = (-(d.year as i64)) as u64;
        out.append(u64_to_padded(mag, 4).as_str());
        proof {
            assert(out@ =~= year_str(d.year as int));
        }
    } else if d.year > 9999 {
        out.append("+");
        out.append(uint_to_string(d.year as u128).as_str());
        proof {
            assert(out@ =~= year_str(d.year as int));
        }
    } else {
        out.append(u64_to_padded(d.year as u64, 4).as_str());
    }
    out.append("-");
    out.append(u64_to_padded(d.month as u64, 2).as_str());
    out.append("-");
    out.append(u64_to_padded(d.day as u64, 2).as_str());
    proof {
        assert(out@ =~= date_str(*d));
    }
    out
}

/// What `chrono` parses out of a string with the `%Y-%m-%d` format: `None`
/// when the string is rejected, else year, month and day.  The result depends
/// on the characters alone.
pub uninterp spec fn chrono_ymd(s: Seq<char>) -> Option<(i32, u32, u32)>;

/// Relies on `chrono::NaiveDate::parse_from_str` with the format string
/// `"%Y-%m-%d"`, and on the `Datelike` accessors `year`, `month` and `day`,
/// which chrono documents to return a month in 1..=12 and a day in 1..=31.
#[verifier::external_body]
fn parse_ymd(s: &str) -> (r: Option<(i32, u32, u32)>)
    ensures
        r == chrono_ymd(s@),
        r matches Some(t) ==> 1 <= t.1 <= 12 && 1 <= t.2 <= 31,
{
    match chrono::NaiveDate::parse_from_str(s, "%Y-%m-%d") {
        Ok(d) => Some((d.year(), d.month(), d.day())),
        Err(_) => None,
    }
}

/// The date parsed from `s`, when `chrono` accepts `s` as `YYYY-MM-DD`.
pub open spec fn date_parse_spec(s: Seq<char>) -> Option<Date> {
    match chrono_ymd(s) {
        Some(t) => Some(Date { year: t.0, month: t.1 as u8, day: t.2 as u8 }),
        None => None,
    }
}

/// Parses a `YYYY-MM-DD` date, `None` when the string is rejected.
pub fn parse_date_opt(s: &str) -> (r: Option<Date>)
    ensures
        r == date_parse_spec(s@),
        r matches Some(d) ==> d.wf(),
{
    match parse_ymd(s) {
        Some((y, m, d)) => Some(Date { year: y, month: m as u8, day: d as u8 }),
        None => None,
    }
}

} // verus!
