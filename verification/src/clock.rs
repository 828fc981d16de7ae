//! Times of day, calendar dates and weekdays as plain values, and the calls
//! into chrono that read and write them.

use vstd::prelude::*;

use crate::text::{decimal, digit, digit_value, digits_value, is_digit, is_white_space, padded, trim_start};

verus! {

/// A time of day as chrono's `NaiveTime` holds it: whole seconds since
/// midnight and a fraction in nanoseconds, where a fraction of a second or
/// more marks a leap second.
#[derive(Clone, Copy, Debug, PartialEq, Eq, Structural)]
pub struct ClassTime {
    pub secs: u32,
    pub frac: u32,
}

impl ClassTime {
    /// The values chrono accepts for a time of day.
    pub open spec fn wf(self) -> bool {
        &&& self.secs < 86400
        &&& self.frac < 2_000_000_000
        &&& self.frac >= 1_000_000_000 ==> self.secs % 60 == 59
    }
}

/// A calendar date of the proleptic Gregorian calendar.
#[derive(Clone, Copy, Debug, PartialEq, Eq, Structural)]
pub struct ClassDate {
    pub year: i32,
    pub month: u32,
    pub day: u32,
}

pub open spec fn is_leap_year(y: int) -> bool {
    y % 4 == 0 && (y % 100 != 0 || y % 400 == 0)
}

pub open spec fn days_in_month(y: int, m: int) -> int {
    if m == 2 {
        if is_leap_year(y) {
            29
        } else {
            28
        }
    } else if m == 4 || m == 6 || m == 9 || m == 11 {
        30
    } else {
        31
    }
}

impl ClassDate {
    /// The dates chrono's `NaiveDate` can hold.
    pub open spec fn wf(self) -> bool {
        &&& -262143 <= self.year <= 262142
        &&& 1 <= self.month <= 12
        &&& 1 <= self.day <= days_in_month(self.year as int, self.month as int)
    }
}

/// A date and a time of day, as chrono's `NaiveDateTime`.
#[derive(Clone, Copy, Debug, PartialEq, Eq, Structural)]
pub struct ClassDateTime {
    pub date: ClassDate,
    pub time: ClassTime,
}

impl ClassDateTime {
    pub open spec fn wf(self) -> bool {
        self.date.wf() && self.time.wf()
    }
}

/// A day of the week.
#[derive(Clone, Copy, Debug, PartialEq, Eq, Structural)]
pub enum Weekday {
    Mon,
    Tue,
    Wed,
    Thu,
    Fri,
    Sat,
    Sun,
}

/// `c` is the lowercase ASCII letter `l` in either case.
pub open spec fn same_letter(c: char, l: char) -> bool {
    c == l || c as int + 32 == l as int
}

/// `s` spells `name` (a lowercase ASCII word) in any mix of cases.
pub open spec fn spells(s: Seq<char>, name: Seq<char>) -> bool {
    s.len() == name.len() && forall|i: int| 0 <= i < s.len() ==> same_letter(s[i], name[i])
}

/// The weekday that chrono's `Weekday::from_str` reads from `s`: the
/// three-letter or the full English name, in any case.
pub open spec fn weekday_from_name(s: Seq<char>) -> Option<Weekday> {
    if spells(s, "mon"@) || spells(s, "monday"@) {
        Some(Weekday::Mon)
    } else if spells(s, "tue"@) || spells(s, "tuesday"@) {
        Some(Weekday::Tue)
    } else if spells(s, "wed"@) || spells(s, "wednesday"@) {
        Some(Weekday::Wed)
    } else if spells(s, "thu"@) || spells(s, "thursday"@) {
        Some(Weekday::Thu)
    } else if spells(s, "fri"@) || spells(s, "friday"@) {
        Some(Weekday::Fri)
    } else if spells(s, "sat"@) || spells(s, "saturday"@) {
        Some(Weekday::Sat)
    } else if spells(s, "sun"@) || spells(s, "sunday"@) {
        Some(Weekday::Sun)
    } else {
        None
    }
}

/// Reads a weekday name.
/// Trusted: calls chrono's `Weekday::from_str`, which in its source accepts
/// exactly the three-letter and the full English names, compared byte by
/// byte without regard to ASCII case, and refuses anything else.
#[verifier::external_body]
pub(crate) fn parse_weekday(s: &str) -> (r: Option<Weekday>)
    ensures
        r == weekday_from_name(s@),
{
    match s.parse::<chrono::Weekday>() {
        Ok(chrono::Weekday::Mon) => Some(Weekday::Mon),
        Ok(chrono::Weekday::Tue) => Some(Weekday::Tue),
        Ok(chrono::Weekday::Wed) => Some(Weekday::Wed),
        Ok(chrono::Weekday::Thu) => Some(Weekday::Thu),
        Ok(chrono::Weekday::Fri) => Some(Weekday::Fri),
        Ok(chrono::Weekday::Sat) => Some(Weekday::Sat),
        Ok(chrono::Weekday::Sun) => Some(Weekday::Sun),
        Err(_) => None,
    }
}

/// The number of leading ASCII digits of `s`, counting at most `max`.
pub open spec fn digit_run(s: Seq<char>, max: nat) -> nat
    decreases max,
{
    if max > 0 && s.len() > 0 && is_digit(s[0]) {
        1 + digit_run(s.drop_first(), (max - 1) as nat)
    } else {
        0
    }
}

/// The time that chrono's `NaiveTime::parse_from_str(s, "%H:%M")` reads:
/// optional white space, one or two digits of hour (at most 23), a `:`,
/// optional white space, one or two digits of minute (at most 59), and
/// nothing after.
pub open spec fn hour_minute_from_text(s: Seq<char>) -> Option<ClassTime> {
    let a = trim_start(s);
    let hn = digit_run(a, 2);
    let rest = a.skip(hn as int);
    if hn == 0 || rest.len() == 0 || rest[0] != ':' {
        None
    } else {
        let b = trim_start(rest.drop_first());
        let mn = digit_run(b, 2);
        let h = digits_value(a.take(hn as int));
        let m = digits_value(b.take(mn as int));
        if mn == 0 || mn != b.len() || h > 23 || m > 59 {
            None
        } else {
            Some(ClassTime { secs: (h * 3600 + m * 60) as u32, frac: 0 })
        }
    }
}

/// Reads an `HH:MM` time of day.
/// Trusted: calls chrono's `NaiveTime::parse_from_str` with the format
/// `"%H:%M"`. Its source trims leading white space before each number,
/// reads one or two ASCII digits for each, requires the `:` between them and
/// nothing after the minutes, checks hour <= 23 and minute <= 59, and sets
/// the seconds and their fraction to zero.
#[verifier::external_body]
pub(crate) fn parse_hour_minute(s: &str) -> (r: Option<ClassTime>)
    ensures
        r == hour_minute_from_text(s@),
{
    match chrono::NaiveTime::parse_from_str(s, "%H:%M") {
        Ok(t) => Some(
            ClassTime {
                secs: chrono::Timelike::num_seconds_from_midnight(&t),
                frac: chrono::Timelike::nanosecond(&t),
            },
        ),
        Err(_) => None,
    }
}

/// The fraction of a second as chrono writes it: nothing for zero, else a
/// `.` and three, six or nine digits, the fewest that hold it exactly.
pub open spec fn fraction_text(nano: nat) -> Seq<char> {
    if nano == 0 {
        Seq::empty()
    } else if nano % 1_000_000 == 0 {
        seq!['.'] + padded(nano / 1_000_000, 3)
    } else if nano % 1000 == 0 {
        seq!['.'] + padded(nano / 1000, 6)
    } else {
        seq!['.'] + padded(nano, 9)
    }
}

/// A time of day as chrono's `Display` writes it: `HH:MM:SS`, a leap second
/// written as second 60, then the fraction.
pub open spec fn time_text(t: ClassTime) -> Seq<char> {
    let leap = t.frac >= 1_000_000_000;
    let sec: nat = if leap {
        (t.secs % 60 + 1) as nat
    } else {
        (t.secs % 60) as nat
    };
    let nano: nat = if leap {
        (t.frac - 1_000_000_000) as nat
    } else {
        t.frac as nat
    };
    padded((t.secs / 3600) as nat, 2) + seq![':'] + padded((t.secs / 60 % 60) as nat, 2) + seq![':']
        + padded(sec, 2) + fraction_text(nano)
}

/// A year as chrono writes it: four digits from 0 to 9999, else a sign and
/// at least four digits.
pub open spec fn year_text(y: int) -> Seq<char> {
    if 0 <= y <= 9999 {
        padded(y as nat, 4)
    } else {
        let mag: nat = if y < 0 {
            (-y) as nat
        } else {
            y as nat
        };
        let digits = if mag < 10000 {
            padded(mag, 4)
        } else {
            decimal(mag)
        };
        (if y < 0 {
            seq!['-']
        } else {
            seq!['+']
        }) + digits
    }
}

/// A date as chrono's `Display` writes it: `YYYY-MM-DD`.
pub open spec fn date_text(d: ClassDate) -> Seq<char> {
    year_text(d.year as int) + seq!['-'] + padded(d.month as nat, 2) + seq!['-'] + padded(
        d.day as nat,
        2,
    )
}

/// A date and time as chrono's `Display` writes it: the date, a space, the time.
pub open spec fn date_time_text(dt: ClassDateTime) -> Seq<char> {
    date_text(dt.date) + seq![' '] + time_text(dt.time)
}

/// Writes a time of day.
/// Trusted: calls chrono's `Display` for `NaiveTime`, which in its source
/// writes hour, minute and second with two digits each, a leap second as
/// second 60, and a nonzero fraction as `.` with 3, 6 or 9 digits.
#[verifier::external_body]
pub(crate) fn format_time(t: ClassTime) -> (r: String)
    requires
        t.wf(),
    ensures
        r@ == time_text(t),
{
    chrono::NaiveTime::from_num_seconds_from_midnight_opt(t.secs, t.frac).unwrap().to_string()
}

/// Writes a date and time.
/// Trusted: calls chrono's `Display` for `NaiveDateTime`, which in its
/// source writes the date (four-digit year from 0 to 9999, else signed with
/// at least four digits; two-digit month and day), a space and the time as
/// `Display` for `NaiveTime` does.
#[verifier::external_body]
pub(crate) fn format_date_time(dt: ClassDateTime) -> (r: String)
    requires
        dt.wf(),
    ensures
        r@ == date_time_text(dt),
{
    let d = chrono::NaiveDate::from_ymd_opt(dt.date.year, dt.date.month, dt.date.day).unwrap();
    let t = chrono::NaiveTime::from_num_seconds_from_midnight_opt(dt.time.secs, dt.time.frac);
    chrono::NaiveDateTime::new(d, t.unwrap()).to_string()
}

/// `a` comes before `b`, as chrono orders times of day: by second, then by
/// fraction.
pub open spec fn time_before(a: ClassTime, b: ClassTime) -> bool {
    a.secs < b.secs || (a.secs == b.secs && a.frac < b.frac)
}

/// Whether `a` comes before `b`.
pub fn is_before(a: ClassTime, b: ClassTime) -> (r: bool)
    ensures
        r == time_before(a, b),
{
    a.secs < b.secs || (a.secs == b.secs && a.frac < b.frac)
}

/// The time from `b` to `a` in nanoseconds, as chrono's `NaiveTime - NaiveTime`
/// counts it: a leap second is counted when the interval passes it.
pub open spec fn time_diff(a: ClassTime, b: ClassTime) -> int {
    let adj: int = if a.secs > b.secs && b.frac >= 1_000_000_000 {
        1
    } else if a.secs < b.secs && a.frac >= 1_000_000_000 {
        -1
    } else {
        0
    };
    (a.secs - b.secs + adj) * 1_000_000_000 + (a.frac - b.frac)
}

/// The time from `b` to `a`, in nanoseconds.
/// Trusted: calls chrono's `Sub` for `NaiveTime` (`signed_duration_since`),
/// whose source subtracts seconds and fractions, counting one second more or
/// less where a leap second lies between, and `TimeDelta::num_nanoseconds`,
/// which gives the total in nanoseconds (within a day it fits in an `i64`).
#[verifier::external_body]
pub(crate) fn time_since(a: ClassTime, b: ClassTime) -> (r: i64)
    requires
        a.wf(),
        b.wf(),
    ensures
        r == time_diff(a, b),
{
    let x = chrono::NaiveTime::from_num_seconds_from_midnight_opt(a.secs, a.frac).unwrap();
    let y = chrono::NaiveTime::from_num_seconds_from_midnight_opt(b.secs, b.frac).unwrap();
    (x - y).num_nanoseconds().unwrap()
}

proof fn lemma_two_digits(n: nat)
    requires
        n < 100,
    ensures
        padded(n, 2) == seq![digit((n / 10) as int), digit((n % 10) as int)],
        is_digit(padded(n, 2)[0]),
        is_digit(padded(n, 2)[1]),
        !is_white_space(padded(n, 2)[0]),
        digits_value(padded(n, 2)) == n,
{
    reveal_with_fuel(padded, 3);
    let p = padded(n, 2);
    assert(padded(n / 10, 1) =~= seq![digit((n / 10 % 10) as int)]);
    assert(n / 10 % 10 == n / 10);
    assert(p =~= seq![digit((n / 10) as int), digit((n % 10) as int)]);
    assert(p.drop_last() =~= seq![p[0]]);
    assert(p.drop_last().drop_last() =~= Seq::<char>::empty());
    assert(digit_value(p[0]) == n / 10);
    assert(digit_value(p[1]) == n % 10);
    let q = p.drop_last();
    assert(q.last() == p[0]);
    assert(digits_value(q.drop_last()) == 0);
    assert(digits_value(q) == digits_value(q.drop_last()) * 10 + digit_value(q.last()));
    assert(digits_value(q) == n / 10);
    assert(p.last() == p[1]);
    assert(digits_value(p) == digits_value(q) * 10 + digit_value(p.last()));
}

/// A class registered at `HH:MM` is stored at that hour and minute, and class
/// lists show it as `HH:MM:00`.
pub proof fn lemma_hour_minute_roundtrip(h: nat, m: nat)
    requires
        h < 24,
        m < 60,
    ensures
        hour_minute_from_text(padded(h, 2) + seq![':'] + padded(m, 2)) == Some(
            ClassTime { secs: (h * 3600 + m * 60) as u32, frac: 0 },
        ),
        time_text(ClassTime { secs: (h * 3600 + m * 60) as u32, frac: 0 }) == padded(h, 2) + seq![
            ':',
        ] + padded(m, 2) + seq![':', '0', '0'],
{
    lemma_two_digits(h);
    lemma_two_digits(m);
    lemma_two_digits(0);
    let hs = padded(h, 2);
    let ms = padded(m, 2);
    let s = hs + seq![':'] + ms;
    assert(trim_start(s) == s);
    reveal_with_fuel(digit_run, 3);
    assert(s.drop_first().drop_first()[0] == ':');
    assert(digit_run(s, 2) == 2);
    assert(s.take(2) =~= hs);
    let rest = s.skip(2);
    assert(rest[0] == ':');
    assert(rest.drop_first() =~= ms);
    assert(trim_start(ms) == ms);
    assert(digit_run(ms, 2) == 2);
    assert(ms.take(2) =~= ms);
    let secs: nat = h * 3600 + m * 60;
    assert(secs / 3600 == h && secs / 60 % 60 == m && secs % 60 == 0) by (nonlinear_arith)
        requires
            secs == h * 3600 + m * 60,
            h < 24,
            m < 60,
    ;
    assert(seq![digit(0), digit(0)] =~= seq!['0', '0']);
}

} // verus!
