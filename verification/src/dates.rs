//! Calendar dates as plain values.

use vstd::prelude::*;

verus! {

/// A calendar date: year, month (1 to 12) and day of the month.
#[derive(Debug, Clone, Copy, PartialEq, Eq)]
pub struct PlainDate {
    pub year: i32,
    pub month: u32,
    pub day: u32,
}

/// Whether `a` comes strictly before `b` in the calendar.
pub open spec fn date_before(a: PlainDate, b: PlainDate) -> bool {
    ||| a.year < b.year
    ||| (a.year == b.year && a.month < b.month)
    ||| (a.year == b.year && a.month == b.month && a.day < b.day)
}

/// Dates are ordered as the calendar orders them: an earlier year comes first
/// whatever the month and day, within a year an earlier month comes first
/// whatever the days, and within a month the earlier day. The order is strict
/// and total: no date is before itself, it is transitive, and of two different
/// dates one is before the other.
pub proof fn law_dates_in_calendar_order(a: PlainDate, b: PlainDate, c: PlainDate)
    ensures
        a.year < b.year ==> date_before(a, b),
        a.year == b.year && a.month < b.month ==> date_before(a, b),
        a.year == b.year && a.month == b.month ==> (date_before(a, b) <==> a.day < b.day),
        !date_before(a, a),
        date_before(a, b) ==> !date_before(b, a),
        date_before(a, b) && date_before(b, c) ==> date_before(a, c),
        a != b ==> date_before(a, b) || date_before(b, a),
{
}

impl PlainDate {
    /// Whether this date comes strictly before `other`.
    pub fn is_before(&self, other: &PlainDate) -> (r: bool)
        ensures
            r == date_before(*self, *other),
    {
        self.year < other.year || (self.year == other.year && self.month < other.month)
            || (self.year == other.year && self.month == other.month && self.day < other.day)
    }
}

} // verus!
