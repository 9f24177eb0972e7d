//! Calendar dates as plain day/month/year numbers, their `DD-MM-YYYY`
//! rendering, and the one trusted read of the local clock.

use vstd::prelude::*;
use vstd::string::StringExecFns;

use crate::text::format_padded_u32;
use crate::text::padded_dec;

verus! {

/// A calendar date held as plain numbers. The remote service receives it
/// rendered as `DD-MM-YYYY`; nothing here computes with it.
pub struct Date {
    pub day: u32,
    pub month: u32,
    pub year: u32,
}

impl Date {
    /// Day and month lie in the ranges a calendar allows. The year is any
    /// number; rendering pads it to at least four digits.
    pub open spec fn wf(self) -> bool {
        1 <= self.day <= 31 && 1 <= self.month <= 12
    }

    /// Builds a date from the plain numbers a clock reading yields. A
    /// negative year cannot be rendered in the `DD-MM-YYYY` form and is
    /// rejected.
    pub fn from_parts(day: u32, month: u32, year: i32) -> (r: Option<Date>)
        ensures
            r is Some <==> 0 <= year,
            r matches Some(d) ==> d.day == day && d.month == month && d.year == year as u32,
    {
        if year >= 0 {
            Some(Date { day, month, year: year as u32 })
        } else {
            None
        }
    }
}

/// The `DD-MM-YYYY` text of a date: day and month zero-padded to two
/// digits, year to four.
pub open spec fn date_text(d: Date) -> Seq<char> {
    padded_dec(d.day as nat, 2) + "-"@ + padded_dec(d.month as nat, 2) + "-"@ + padded_dec(
        d.year as nat,
        4,
    )
}

/// Renders a date as `DD-MM-YYYY`.
pub fn format_date(d: &Date) -> (r: String)
    ensures
        r@ == date_text(*d),
{
    let mut s = format_padded_u32(d.day, 2);
    s.append("-");
    let m = format_padded_u32(d.month, 2);
    s.append(m.as_str());
    s.append("-");
    let y = format_padded_u32(d.year, 4);
    s.append(y.as_str());
    proof {
        assert(s@ =~= date_text(*d));
    }
    s
}

/// Relies on chrono's `Local::now` and `Datelike::{day, month, year}`: the
/// day of month lies in 1..=31 and the month number in 1..=12. The reading
/// depends on the wall clock, so nothing more is promised of it.
#[verifier::external_body]
pub fn today_local() -> (r: (u32, u32, i32))
    ensures
        1 <= r.0 <= 31,
        1 <= r.1 <= 12,
{
    let now = chrono::Local::now();
    (chrono::Datelike::day(&now), chrono::Datelike::month(&now), chrono::Datelike::year(&now))
}

} // verus!
