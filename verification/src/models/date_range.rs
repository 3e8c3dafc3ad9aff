use crate::text::{join3, zero_padded_digits, zero_padded_text};
use vstd::prelude::*;
use vstd::string::StringExecFns;

verus! {

/// The number that `chrono` gives the day `year`-`month`-`day` in the
/// proleptic Gregorian calendar, where 1 January of year 1 is day 1;
/// `None` where there is no such day.
pub uninterp spec fn day_number(year: int, month: int, day: int) -> Option<int>;

/// The text that `chrono` writes for the day `year`-`month`-`day` under the
/// format `%a, %b %d`; `None` where there is no such day.
pub uninterp spec fn short_date_text(year: int, month: int, day: int) -> Option<Seq<char>>;

/// `chrono::NaiveDate::from_ymd_opt`, then `Datelike::num_days_from_ce` on
/// the date: the day's number, or `None` where `from_ymd_opt` gives none.
#[verifier::external_body]
fn chrono_day_number(year: i32, month: u32, day: u32) -> (r: Option<i32>)
    ensures
        match r {
            Some(n) => day_number(year as int, month as int, day as int) == Some(n as int),
            None => day_number(year as int, month as int, day as int) is None,
        },
{
    match chrono::NaiveDate::from_ymd_opt(year, month, day) {
        Some(date) => Some(chrono::Datelike::num_days_from_ce(&date)),
        None => None,
    }
}

/// `chrono::NaiveDate::from_ymd_opt`, then `NaiveDate::format` with
/// `%a, %b %d` on the date: the text, or `None` where `from_ymd_opt` gives
/// none.
#[verifier::external_body]
fn chrono_short_date(year: i32, month: u32, day: u32) -> (r: Option<String>)
    ensures
        r.deep_view() == short_date_text(year as int, month as int, day as int),
{
    match chrono::NaiveDate::from_ymd_opt(year, month, day) {
        Some(date) => Some(date.format("%a, %b %d").to_string()),
        None => None,
    }
}

/// The year as a signed number: years above `i32::MAX` wrap round.
pub open spec fn signed_year(year: u32) -> int {
    if year <= 0x7fff_ffff {
        year as int
    } else {
        year - 0x1_0000_0000
    }
}

fn to_signed_year(year: u32) -> (r: i32)
    ensures
        r == signed_year(year),
{
    if year <= 0x7fff_ffff {
        year as i32
    } else {
        let wide: i64 = year as i64 - 0x1_0000_0000;
        wide as i32
    }
}

/// The nights from the day numbered `start` to the day numbered `end`:
/// the days between them where both exist and `end` is the later one,
/// else none.
pub open spec fn nights_between_days(start: Option<int>, end: Option<int>) -> int {
    match (start, end) {
        (Some(s), Some(e)) => if e > s {
            e - s
        } else {
            0
        },
        _ => 0,
    }
}

/// The nights from the day numbered `start` to the day numbered `end`.
pub fn nights_between(start: Option<i32>, end: Option<i32>) -> (r: u32)
    ensures
        r == nights_between_days(
            match start {
                Some(s) => Some(s as int),
                None => None,
            },
            match end {
                Some(e) => Some(e as int),
                None => None,
            },
        ),
{
    match (start, end) {
        (Some(s), Some(e)) => {
            if e > s {
                let nights: i64 = e as i64 - s as i64;
                nights as u32
            } else {
                0
            }
        },
        _ => 0,
    }
}

/// A text, or the empty text where there is none.
pub open spec fn text_or_empty(text: Option<Seq<char>>) -> Seq<char> {
    match text {
        Some(text) => text,
        None => Seq::empty(),
    }
}

/// Two short dates joined by " - ", each left empty where there is none.
pub fn join_short_dates(start: Option<String>, end: Option<String>) -> (r: String)
    ensures
        r@ == text_or_empty(start.deep_view()) + " - "@ + text_or_empty(end.deep_view()),
{
    let first = match start {
        Some(text) => text,
        None => String::new(),
    };
    let second = match end {
        Some(text) => text,
        None => String::new(),
    };
    join3(first.as_str(), " - ", second.as_str())
}

/// The text of a date as year, month and day, joined by `-`: the year in
/// four digits at least, month and day in two.
pub open spec fn iso_date_text(date: (u32, u32, u32)) -> Seq<char> {
    zero_padded_digits(date.0 as nat, 4) + "-"@ + zero_padded_digits(date.1 as nat, 2) + "-"@
        + zero_padded_digits(date.2 as nat, 2)
}

/// The text of a date as day, month and year, joined by `-`.
pub open spec fn day_first_date_text(date: (u32, u32, u32)) -> Seq<char> {
    zero_padded_digits(date.2 as nat, 2) + "-"@ + zero_padded_digits(date.1 as nat, 2) + "-"@
        + zero_padded_digits(date.0 as nat, 4)
}

/// The stay that a guest chose: first and last day, each as year, month
/// and day.
#[derive(Clone, Copy, Debug)]
pub struct SelectedDateRange {
    pub start: (u32, u32, u32),
    pub end: (u32, u32, u32),
}

impl Default for SelectedDateRange {
    fn default() -> (r: Self)
        ensures
            r == (SelectedDateRange { start: (0u32, 0u32, 0u32), end: (0u32, 0u32, 0u32) }),
    {
        SelectedDateRange { start: (0, 0, 0), end: (0, 0, 0) }
    }
}

fn is_unset(date: (u32, u32, u32)) -> (r: bool)
    ensures
        r == (date == (0u32, 0u32, 0u32)),
{
    date.0 == 0 && date.1 == 0 && date.2 == 0
}

fn iso_date(date: (u32, u32, u32)) -> (r: String)
    ensures
        r@ == iso_date_text(date),
{
    let mut r = zero_padded_text(date.0 as u64, 4);
    r.append("-");
    r.append(zero_padded_text(date.1 as u64, 2).as_str());
    r.append("-");
    r.append(zero_padded_text(date.2 as u64, 2).as_str());
    r
}

impl SelectedDateRange {
    /// The day number of a date whose year is taken as a signed number.
    pub open spec fn date_number(date: (u32, u32, u32)) -> Option<int> {
        day_number(signed_year(date.0), date.1 as int, date.2 as int)
    }

    /// The nights of the stay: none where a date is unset or does not
    /// exist, or where the stay does not end after it starts.
    pub open spec fn nights(self) -> int {
        if self.start == (0u32, 0u32, 0u32) || self.end == (0u32, 0u32, 0u32) {
            0
        } else {
            nights_between_days(Self::date_number(self.start), Self::date_number(self.end))
        }
    }

    /// The short text of a date, or nothing where the date does not exist.
    pub open spec fn short_text(date: (u32, u32, u32)) -> Seq<char> {
        text_or_empty(short_date_text(signed_year(date.0), date.1 as int, date.2 as int))
    }

    /// First and last day in the form year-month-day, joined by " - ".
    pub fn to_string(&self) -> (r: String)
        ensures
            r@ == iso_date_text(self.start) + " - "@ + iso_date_text(self.end),
    {
        let start = iso_date(self.start);
        let end = iso_date(self.end);
        join3(start.as_str(), " - ", end.as_str())
    }

    /// The nights of the stay.
    pub fn no_of_nights(&self) -> (r: u32)
        ensures
            r == self.nights(),
    {
        if is_unset(self.start) || is_unset(self.end) {
            return 0;
        }
        let start = chrono_day_number(to_signed_year(self.start.0), self.start.1, self.start.2);
        let end = chrono_day_number(to_signed_year(self.end.0), self.end.1, self.end.2);
        nights_between(start, end)
    }

    /// A date in the form day-month-year.
    pub fn format_date(date: (u32, u32, u32)) -> (r: String)
        ensures
            r@ == day_first_date_text(date),
    {
        let mut r = zero_padded_text(date.2 as u64, 2);
        r.append("-");
        r.append(zero_padded_text(date.1 as u64, 2).as_str());
        r.append("-");
        r.append(zero_padded_text(date.0 as u64, 4).as_str());
        r
    }

    /// First and last day, each as weekday, month and day, joined by
    /// " - ". A date that does not exist is left empty.
    pub fn format_as_human_readable_date(&self) -> (r: String)
        ensures
            r@ == Self::short_text(self.start) + " - "@ + Self::short_text(self.end),
    {
        let start = chrono_short_date(to_signed_year(self.start.0), self.start.1, self.start.2);
        let end = chrono_short_date(to_signed_year(self.end.0), self.end.1, self.end.2);
        join_short_dates(start, end)
    }
}

} // verus!
