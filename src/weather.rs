//! The normalised weather record and the calendar date of a historical query.
use crate::measure::Decimal;
use vstd::prelude::*;

verus! {

/// One weather reading, in the same shape whichever service produced it.
#[derive(Debug, Clone, PartialEq, Eq)]
pub struct WeatherData {
    /// The place the reading is for.
    pub location: String,
    /// When the reading was taken, in seconds since 1970-01-01 00:00 UTC.
    pub datetime: i64,
    /// Temperature in degrees Celsius.
    pub temp_c: Decimal,
    /// Relative humidity in percent (not clamped).
    pub humidity: Decimal,
    /// Air pressure in hectopascals.
    pub pressure: Decimal,
    /// A short description such as "Sunny".
    pub condition: String,
    /// Wind speed in kilometres per hour.
    pub wind_kph: Decimal,
    /// Wind direction in degrees.
    pub wind_deg: Decimal,
}

impl WeatherData {
    /// Every field of the record, with the strings by their characters.
    pub open spec fn has_fields(
        &self,
        location: Seq<char>,
        datetime: i64,
        temp_c: Decimal,
        humidity: Decimal,
        pressure: Decimal,
        condition: Seq<char>,
        wind_kph: Decimal,
        wind_deg: Decimal,
    ) -> bool {
        &&& self.location@ == location
        &&& self.datetime == datetime
        &&& self.temp_c == temp_c
        &&& self.humidity == humidity
        &&& self.pressure == pressure
        &&& self.condition@ == condition
        &&& self.wind_kph == wind_kph
        &&& self.wind_deg == wind_deg
    }
}

/// The symbol shown beside a temperature (degrees Celsius): frost below zero, then
/// one symbol for each band of ten degrees up to thirty, and heat from thirty on.
pub open spec fn emoji_for(t: Decimal) -> Seq<char> {
    if t.below_whole(0) {
        "\u{2744}\u{fe0f}"@
    } else if t.below_whole(10) {
        "\u{2601}\u{fe0f}"@
    } else if t.below_whole(20) {
        "\u{26c5}"@
    } else if t.below_whole(30) {
        "\u{1f324}\u{fe0f}"@
    } else {
        "\u{1f525}"@
    }
}

/// The symbol shown beside a temperature.
pub fn temperature_emoji(t: Decimal) -> (r: &'static str)
    ensures
        r@ == emoji_for(t),
{
    if t.is_below_whole(0) {
        "\u{2744}\u{fe0f}"
    } else if t.is_below_whole(10) {
        "\u{2601}\u{fe0f}"
    } else if t.is_below_whole(20) {
        "\u{26c5}"
    } else if t.is_below_whole(30) {
        "\u{1f324}\u{fe0f}"
    } else {
        "\u{1f525}"
    }
}

pub open spec fn is_leap_year(y: int) -> bool {
    (y % 4 == 0 && y % 100 != 0) || y % 400 == 0
}

pub open spec fn days_in_month(y: int, m: int) -> int {
    if m == 2 {
        if is_leap_year(y) {
            29
        } else {
            28
        }
    } else if m == 4 || m == 6 || m == 9 || m == 11 {
        30
    } else {
        31
    }
}

/// The character of a decimal digit `0..=9`.
pub open spec fn digit_char(d: int) -> char {
    if d == 0 {
        '0'
    } else if d == 1 {
        '1'
    } else if d == 2 {
        '2'
    } else if d == 3 {
        '3'
    } else if d == 4 {
        '4'
    } else if d == 5 {
        '5'
    } else if d == 6 {
        '6'
    } else if d == 7 {
        '7'
    } else if d == 8 {
        '8'
    } else {
        '9'
    }
}

/// A day of the proleptic Gregorian calendar in the years 0 to 9999.
#[derive(Debug, Clone, Copy, PartialEq, Eq, Structural)]
pub struct CalendarDate {
    year: u16,
    month: u8,
    day: u8,
}

impl CalendarDate {
    pub open spec fn valid_ymd(year: int, month: int, day: int) -> bool {
        &&& 0 <= year <= 9999
        &&& 1 <= month <= 12
        &&& 1 <= day <= days_in_month(year, month)
    }

    pub closed spec fn spec_year(self) -> int {
        self.year as int
    }

    pub closed spec fn spec_month(self) -> int {
        self.month as int
    }

    pub closed spec fn spec_day(self) -> int {
        self.day as int
    }

    pub open spec fn wf(self) -> bool {
        Self::valid_ymd(self.spec_year(), self.spec_month(), self.spec_day())
    }

    /// The date as `YYYY-MM-DD`, each part padded with zeros.
    pub open spec fn iso_text(self) -> Seq<char> {
        let y = self.spec_year();
        let m = self.spec_month();
        let d = self.spec_day();
        seq![
            digit_char(y / 1000),
            digit_char(y / 100 % 10),
            digit_char(y / 10 % 10),
            digit_char(y % 10),
            '-',
            digit_char(m / 10),
            digit_char(m % 10),
            '-',
            digit_char(d / 10),
            digit_char(d % 10),
        ]
    }

    /// The date with this year, month and day, if there is one in the years 0 to 9999.
    pub fn new(year: i32, month: u32, day: u32) -> (r: Option<CalendarDate>)
        ensures
            r is Some <==> Self::valid_ymd(year as int, month as int, day as int),
            r matches Some(d) ==> d.wf() && d.spec_year() == year && d.spec_month() == month
                && d.spec_day() == day,
    {
        if year < 0 || year > 9999 || month < 1 || month > 12 || day < 1 {
            return None;
        }
        let leap = (year % 4 == 0 && year % 100 != 0) || year % 400 == 0;
        let last: u32 = if month == 2 {
            if leap {
                29
            } else {
                28
            }
        } else if month == 4 || month == 6 || month == 9 || month == 11 {
            30
        } else {
            31
        };
        if day > last {
            return None;
        }
        Some(CalendarDate { year: year as u16, month: month as u8, day: day as u8 })
    }

    pub fn year(&self) -> (r: u16)
        ensures
            r == self.spec_year(),
    {
        self.year
    }

    pub fn month(&self) -> (r: u8)
        ensures
            r == self.spec_month(),
    {
        self.month
    }

    pub fn day(&self) -> (r: u8)
        ensures
            r == self.spec_day(),
    {
        self.day
    }

    /// Writes the date as `YYYY-MM-DD`.
    pub fn to_iso_string(&self) -> (r: String)
        requires
            self.wf(),
        ensures
            r@ == self.iso_text(),
    {
        let y = self.year;
        let m = self.month;
        let d = self.day;
        let mut r = String::new();
        r.append(digit_str((y / 1000) as u8));
        r.append(digit_str((y / 100 % 10) as u8));
        r.append(digit_str((y / 10 % 10) as u8));
        r.append(digit_str((y % 10) as u8));
        r.append(dash());
        r.append(digit_str(m / 10));
        r.append(digit_str(m % 10));
        r.append(dash());
        r.append(digit_str(d / 10));
        r.append(digit_str(d % 10));
        proof {
            assert(r@ =~= self.iso_text());
        }
        r
    }
}

/// The decimal digits of `n`, without leading zeros.
pub open spec fn decimal_text(n: nat) -> Seq<char>
    decreases n,
{
    if n < 10 {
        seq![digit_char(n as int)]
    } else {
        decimal_text(n / 10) + seq![digit_char((n % 10) as int)]
    }
}

/// Appends the decimal digits of `n` to `r`.
pub(crate) fn append_decimal(r: &mut String, n: u16)
    ensures
        final(r)@ == old(r)@ + decimal_text(n as nat),
    decreases n,
{
    if n >= 10 {
        append_decimal(r, n / 10);
    }
    let ghost mid = r@;
    r.append(digit_str((n % 10) as u8));
    proof {
        if n >= 10 {
            assert(r@ =~= old(r)@ + decimal_text(n as nat));
        } else {
            assert(r@ =~= old(r)@ + decimal_text(n as nat));
        }
    }
}

fn dash() -> (r: &'static str)
    ensures
        r@ == seq!['-'],
{
    proof {
        reveal_strlit("-");
    }
    "-"
}

/// The one-character text of a decimal digit.
fn digit_str(d: u8) -> (r: &'static str)
    requires
        d <= 9,
    ensures
        r@ == seq![digit_char(d as int)],
{
    proof {
        reveal_strlit("0");
        reveal_strlit("1");
        reveal_strlit("2");
        reveal_strlit("3");
        reveal_strlit("4");
        reveal_strlit("5");
        reveal_strlit("6");
        reveal_strlit("7");
        reveal_strlit("8");
        reveal_strlit("9");
    }
    match d {
        0 => "0",
        1 => "1",
        2 => "2",
        3 => "3",
        4 => "4",
        5 => "5",
        6 => "6",
        7 => "7",
        8 => "8",
        _ => "9",
    }
}

} // verus!
