//! Calendar dates as day numbers, and the dates that a query may name.
//!
//! A date is held as the number of its day in the proleptic Gregorian
//! calendar, counted so that 1 January of the year 1 is day 1. Reading a date
//! from text and writing it as text are left to `chrono`; stepping through
//! days and weeks is plain arithmetic on the day number.
use vstd::prelude::*;

verus! {

/// Day number of the first date that `chrono::NaiveDate` can hold
/// (1 January of the year -262143).
pub const MIN_DAYS: i32 = -95_746_129;

/// Day number of the last date that `chrono::NaiveDate` can hold
/// (31 December of the year 262142).
pub const MAX_DAYS: i32 = 95_745_399;

/// One calendar date.
#[derive(Debug, Clone, Copy, PartialEq, Eq, PartialOrd, Ord, Hash, Structural)]
pub struct Date {
    days: i32,
}

#[derive(Debug, Clone, Copy, PartialEq, Eq, Hash, Structural)]
pub enum Weekday {
    Mon,
    Tue,
    Wed,
    Thu,
    Fri,
    Sat,
    Sun,
}

/// A day named by its distance from today.
#[derive(Debug, Clone, Copy, PartialEq, Eq, Structural)]
pub enum MensaRelativeDate {
    Today,
    Yesterday,
    Tomorrow,
}

/// The day that a query asks for.
#[derive(Debug, Clone, Copy, PartialEq, Eq, Structural)]
pub enum MensaDate {
    Relative(MensaRelativeDate),
    Weekday(Weekday),
    Date(Date),
}

#[verifier::external_type_specification]
#[verifier::external_body]
pub struct ExParseError(chrono::format::ParseError);

/// The day number of the date that `text` holds in the form year, month and
/// day with hyphens between them, as `chrono` reads the format `%Y-%m-%d`;
/// `None` where `chrono` rejects the text.
pub uninterp spec fn iso_date_days(text: Seq<char>) -> Option<int>;

/// The text that `chrono` writes for the date with the given day number.
pub uninterp spec fn iso_date_text(days: int) -> Seq<char>;

/// Whether a day number is one of a date that can be held.
pub open spec fn in_range(days: int) -> bool {
    MIN_DAYS <= days <= MAX_DAYS
}

/// The day number `n` days after `days`, if it is one of a date that can be
/// held.
pub open spec fn shifted(days: int, n: int) -> Option<int> {
    if in_range(days + n) {
        Some(days + n)
    } else {
        None
    }
}

/// The day number of a date that may be absent.
pub open spec fn day_of(date: Option<Date>) -> Option<int> {
    match date {
        Some(d) => Some(d@),
        None => None,
    }
}

/// Distance of a day from the Monday of its week. Day 1 is a Monday.
pub open spec fn days_from_monday(days: int) -> int {
    (days - 1) % 7
}

/// Day number of the Monday of the week that holds the given day.
pub open spec fn week_start(days: int) -> int {
    days - days_from_monday(days)
}

/// `NaiveDate::parse_from_str` with the format `%Y-%m-%d`, and
/// `Datelike::num_days_from_ce` on the date it gives. The result depends on
/// the text alone and is named `iso_date_days`; every `NaiveDate` lies
/// between `NaiveDate::MIN` and `NaiveDate::MAX`, whose day numbers are
/// `MIN_DAYS` and `MAX_DAYS`.
#[verifier::external_body]
fn parse_iso_days(text: &str) -> (r: Result<i32, chrono::format::ParseError>)
    ensures
        match r {
            Ok(n) => iso_date_days(text@) == Some(n as int) && in_range(n as int),
            Err(_) => iso_date_days(text@) is None,
        },
{
    match chrono::NaiveDate::parse_from_str(text, "%Y-%m-%d") {
        Ok(date) => Ok(chrono::Datelike::num_days_from_ce(&date)),
        Err(e) => Err(e),
    }
}

/// `NaiveDate::from_num_days_from_ce_opt`, which gives a date for every day
/// number from `MIN_DAYS` to `MAX_DAYS`, and the `Display` of that date,
/// whose result is named `iso_date_text`.
#[verifier::external_body]
fn write_iso_days(days: i32) -> (r: String)
    requires
        in_range(days as int),
    ensures
        r@ == iso_date_text(days as int),
{
    match chrono::NaiveDate::from_num_days_from_ce_opt(days) {
        Some(date) => date.to_string(),
        None => String::new(),
    }
}

impl View for Date {
    type V = int;

    closed spec fn view(&self) -> int {
        self.days as int
    }
}

impl Weekday {
    /// Days since Monday: 0 for Monday, 6 for Sunday.
    pub open spec fn index(self) -> int {
        match self {
            Weekday::Mon => 0,
            Weekday::Tue => 1,
            Weekday::Wed => 2,
            Weekday::Thu => 3,
            Weekday::Fri => 4,
            Weekday::Sat => 5,
            Weekday::Sun => 6,
        }
    }

    pub fn num_days_from_monday(&self) -> (r: u32)
        ensures
            r == self.index(),
    {
        match self {
            Weekday::Mon => 0,
            Weekday::Tue => 1,
            Weekday::Wed => 2,
            Weekday::Thu => 3,
            Weekday::Fri => 4,
            Weekday::Sat => 5,
            Weekday::Sun => 6,
        }
    }
}

impl Date {
    #[verifier::type_invariant]
    spec fn inv(self) -> bool {
        in_range(self.days as int)
    }

    /// The date with the given day number, if there is one.
    pub fn from_days(days: i32) -> (r: Option<Date>)
        ensures
            day_of(r) == shifted(days as int, 0),
    {
        if MIN_DAYS <= days && days <= MAX_DAYS {
            Some(Date { days })
        } else {
            None
        }
    }

    /// The day number.
    pub fn days(&self) -> (r: i32)
        ensures
            r == self@,
            in_range(r as int),
    {
        proof {
            use_type_invariant(self);
        }
        self.days
    }

    /// Reads a date such as `2024-05-17`.
    pub fn parse(text: &str) -> (r: Option<Date>)
        ensures
            day_of(r) == iso_date_days(text@),
    {
        match parse_iso_days(text) {
            Ok(days) => Some(Date { days }),
            Err(_) => None,
        }
    }

    /// Writes the date as year, month and day.
    pub fn to_iso(&self) -> (r: String)
        ensures
            r@ == iso_date_text(self@),
    {
        proof {
            use_type_invariant(self);
        }
        write_iso_days(self.days)
    }

    /// The day before, unless this is the first date.
    pub fn pred_opt(&self) -> (r: Option<Date>)
        ensures
            day_of(r) == shifted(self@, -1),
    {
        self.checked_add_days(-1)
    }

    /// The day after, unless this is the last date.
    pub fn succ_opt(&self) -> (r: Option<Date>)
        ensures
            day_of(r) == shifted(self@, 1),
    {
        self.checked_add_days(1)
    }

    /// The date `n` days later (earlier, where `n` is negative), if there is
    /// one.
    pub fn checked_add_days(&self, n: i32) -> (r: Option<Date>)
        ensures
            day_of(r) == shifted(self@, n as int),
    {
        proof {
            use_type_invariant(self);
        }
        let target: i64 = self.days as i64 + n as i64;
        if MIN_DAYS as i64 <= target && target <= MAX_DAYS as i64 {
            Some(Date { days: target as i32 })
        } else {
            None
        }
    }

    /// The day of the week.
    pub fn weekday(&self) -> (r: Weekday)
        ensures
            r.index() == days_from_monday(self@),
    {
        proof {
            use_type_invariant(self);
        }
        // 140_000_000 is a multiple of 7 that lifts every day number above 0.
        let lifted: u64 = (self.days as i64 - 1 + 140_000_000) as u64;
        let index: u64 = lifted % 7;
        assert(index == days_from_monday(self@)) by {
            assert((self.days - 1 + 140_000_000) % 7 == (self.days - 1) % 7) by (nonlinear_arith);
        }
        if index == 0 {
            Weekday::Mon
        } else if index == 1 {
            Weekday::Tue
        } else if index == 2 {
            Weekday::Wed
        } else if index == 3 {
            Weekday::Thu
        } else if index == 4 {
            Weekday::Fri
        } else if index == 5 {
            Weekday::Sat
        } else {
            Weekday::Sun
        }
    }

    /// The Monday of this date's week, if it is a date that can be held.
    pub fn week_monday(&self) -> (r: Option<Date>)
        ensures
            day_of(r) == shifted(week_start(self@), 0),
    {
        let back: u32 = self.weekday().num_days_from_monday();
        self.checked_add_days(-(back as i32))
    }
}

impl Default for MensaRelativeDate {
    /// The day a query means when it names none.
    fn default() -> (r: MensaRelativeDate)
        ensures
            r == MensaRelativeDate::Today,
    {
        MensaRelativeDate::Today
    }
}

/// The day number that a query's day stands for on the day `today`, if it
/// is one of a date that can be held.
pub open spec fn resolved(date: MensaDate, today: int) -> Option<int> {
    match date {
        MensaDate::Relative(MensaRelativeDate::Today) => Some(today),
        MensaDate::Relative(MensaRelativeDate::Yesterday) => shifted(today, -1),
        MensaDate::Relative(MensaRelativeDate::Tomorrow) => shifted(today, 1),
        MensaDate::Date(d) => Some(d@),
        MensaDate::Weekday(w) => if in_range(week_start(today)) {
            shifted(week_start(today), w.index())
        } else {
            None
        },
    }
}

impl MensaDate {
    /// Resolves the day that a query names, given today's date: a calendar
    /// date stands for itself, a relative day is counted from today, and a
    /// weekday is that day of the week which holds today, weeks running
    /// from Monday to Sunday.
    pub fn as_date(self, today: Date) -> (r: Option<Date>)
        ensures
            day_of(r) == resolved(self, today@),
    {
        proof {
            use_type_invariant(today);
        }
        match self {
            MensaDate::Relative(MensaRelativeDate::Today) => Some(today),
            MensaDate::Relative(MensaRelativeDate::Yesterday) => today.pred_opt(),
            MensaDate::Relative(MensaRelativeDate::Tomorrow) => today.succ_opt(),
            MensaDate::Date(d) => {
                proof {
                    use_type_invariant(d);
                }
                Some(d)
            },
            MensaDate::Weekday(w) => match today.week_monday() {
                Some(monday) => monday.checked_add_days(w.num_days_from_monday() as i32),
                None => None,
            },
        }
    }
}

} // verus!
