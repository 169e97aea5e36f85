//! Calendar days as day numbers of the proleptic Gregorian calendar.
//!
//! A day is held as the number chrono counts from the common era
//! (January 1 of year 1 is day 1), so that a day later is the number plus one.

use vstd::prelude::*;

verus! {

/// The day number chrono gives the civil date `year`-`month`-`day`
/// (`NaiveDate::from_ymd_opt` followed by `num_days_from_ce`), or `None`
/// where chrono has no such date.
pub uninterp spec fn civil_day_number(year: int, month: int, day: int) -> Option<int>;

/// The text chrono prints for the date with day number `number`
/// (`NaiveDate::from_num_days_from_ce_opt` followed by `to_string`), or
/// `None` where chrono cannot represent that day.
pub uninterp spec fn day_text(number: int) -> Option<Seq<char>>;

/// A calendar date without a time of day.
#[derive(Clone, Copy, Debug, PartialEq, Eq, Hash, Structural)]
pub struct Day {
    /// Days counted from the common era.
    pub number: i32,
}

impl View for Day {
    type V = int;

    open spec fn view(&self) -> int {
        self.number as int
    }
}

/// Trusted: `chrono::NaiveDate::from_ymd_opt` and
/// `chrono::Datelike::num_days_from_ce`. The result is the day number of the
/// civil date, and `None` exactly where chrono rejects the date.
#[verifier::external_body]
fn chrono_day_number(year: i32, month: u32, day: u32) -> (r: Option<i32>)
    ensures
        match r {
            Some(n) => civil_day_number(year as int, month as int, day as int) == Some(n as int),
            None => civil_day_number(year as int, month as int, day as int).is_none(),
        },
{
    chrono::NaiveDate::from_ymd_opt(year, month, day).map(|d| chrono::Datelike::num_days_from_ce(&d))
}

/// The number of January 1 of the year 1.
pub const FIRST_ORDINARY_DAY: i32 = 1;

/// The number of December 31 of the year 9999.
pub const LAST_ORDINARY_DAY: i32 = 3_652_059;

/// Trusted: `chrono::NaiveDate::from_num_days_from_ce_opt` and the date's
/// `to_string`. The result is the printed date, and `None` exactly where
/// chrono cannot represent the day. It can represent every day of the years
/// 1 to 9999, which lie well within its range of dates.
#[verifier::external_body]
fn chrono_day_text(number: i32) -> (r: Option<String>)
    ensures
        match r {
            Some(s) => day_text(number as int) == Some(s@),
            None => day_text(number as int).is_none(),
        },
        FIRST_ORDINARY_DAY <= number <= LAST_ORDINARY_DAY ==> r.is_some(),
{
    chrono::NaiveDate::from_num_days_from_ce_opt(number).map(|d| d.to_string())
}

impl Day {
    /// The day with the given day number.
    pub fn from_days(number: i32) -> (d: Day)
        ensures
            d@ == number,
    {
        Day { number }
    }

    /// The day of a civil date, where the calendar has that date.
    pub fn from_ymd(year: i32, month: u32, day: u32) -> (r: Option<Day>)
        ensures
            match r {
                Some(d) => civil_day_number(year as int, month as int, day as int) == Some(d@),
                None => civil_day_number(year as int, month as int, day as int).is_none(),
            },
    {
        match chrono_day_number(year, month, day) {
            Some(number) => Some(Day { number }),
            None => None,
        }
    }

    /// Whether the day lies in the years 1 to 9999.
    pub open spec fn spec_is_ordinary(&self) -> bool {
        FIRST_ORDINARY_DAY <= self.number <= LAST_ORDINARY_DAY
    }

    /// Whether the day lies in the years 1 to 9999.
    pub fn is_ordinary(&self) -> (b: bool)
        ensures
            b == self.spec_is_ordinary(),
    {
        FIRST_ORDINARY_DAY <= self.number && self.number <= LAST_ORDINARY_DAY
    }

    /// The date as chrono prints it (year, month and day with hyphens
    /// between them), where chrono can represent it, as it can every day of
    /// the years 1 to 9999.
    pub fn text(&self) -> (r: Option<String>)
        ensures
            match r {
                Some(s) => day_text(self@) == Some(s@),
                None => day_text(self@).is_none(),
            },
            self.spec_is_ordinary() ==> r.is_some(),
    {
        chrono_day_text(self.number)
    }

    /// The day `delta` days after this one (before it, for a negative
    /// `delta`), unless its number leaves the range of `i32`.
    pub fn shifted(&self, delta: i32) -> (r: Option<Day>)
        ensures
            match r {
                Some(d) => d@ == self@ + delta,
                None => self@ + delta < i32::MIN || self@ + delta > i32::MAX,
            },
    {
        match self.number.checked_add(delta) {
            Some(number) => Some(Day { number }),
            None => None,
        }
    }

    /// Whether this day comes before `other`.
    pub fn is_before(&self, other: &Day) -> (b: bool)
        ensures
            b == (self@ < other@),
    {
        self.number < other.number
    }
}

/// An inclusive range of days.
#[derive(Clone, Copy, Debug, PartialEq, Eq, Structural)]
pub struct Window {
    pub begin: Day,
    pub end: Day,
}

/// How many days a first synchronisation looks back, today included.
pub const LOOKBACK_DAYS: i32 = 365;

impl Window {
    /// Whether the day with number `day` lies in the window.
    pub open spec fn spec_contains(&self, day: int) -> bool {
        self.begin@ <= day <= self.end@
    }

    /// How many days the window spans.
    pub open spec fn spec_len(&self) -> int {
        if self.begin@ <= self.end@ {
            self.end@ - self.begin@ + 1
        } else {
            0
        }
    }

    /// Whether `day` lies in the window.
    pub fn contains(&self, day: &Day) -> (b: bool)
        ensures
            b == self.spec_contains(day@),
    {
        self.begin.number <= day.number && day.number <= self.end.number
    }

    /// The window that holds `day` alone.
    pub fn single(day: Day) -> (w: Window)
        ensures
            w.begin == day,
            w.end == day,
            forall|d: int| w.spec_contains(d) <==> d == day@,
    {
        Window { begin: day, end: day }
    }

    /// The window of a first synchronisation: the `LOOKBACK_DAYS` days that
    /// end on `today`. `None` only where the first of them has no `i32` number.
    pub fn lookback(today: Day) -> (r: Option<Window>)
        ensures
            match r {
                Some(w) => w.end == today && w.begin@ == today@ - (LOOKBACK_DAYS - 1)
                    && w.spec_len() == LOOKBACK_DAYS,
                None => today@ - (LOOKBACK_DAYS - 1) < i32::MIN,
            },
    {
        match today.shifted(-(LOOKBACK_DAYS - 1)) {
            Some(begin) => Some(Window { begin, end: today }),
            None => None,
        }
    }

    /// The days after `last_synced` up to `today`; `None` when none has
    /// passed.
    pub fn since(last_synced: Day, today: Day) -> (r: Option<Window>)
        ensures
            match r {
                Some(w) => last_synced@ < today@ && w.begin@ == last_synced@ + 1 && w.end == today,
                None => last_synced@ >= today@,
            },
    {
        if last_synced.number < today.number {
            Some(Window { begin: Day { number: last_synced.number + 1 }, end: today })
        } else {
            None
        }
    }
}

} // verus!
