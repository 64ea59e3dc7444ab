//! Proleptic Gregorian calendar: dates, times of day and time spans.
use vstd::prelude::*;

verus! {

/// Smallest year a date can have.
pub const MIN_YEAR: i32 = -262143;

/// Largest year a date can have.
pub const MAX_YEAR: i32 = 262142;

/// Nanoseconds in one second.
pub const NANOS_PER_SEC: i64 = 1_000_000_000;

/// Seconds in one day.
pub const SECS_PER_DAY: i64 = 86400;

pub open spec fn is_leap_year(y: int) -> bool {
    (y % 4 == 0 && y % 100 != 0) || y % 400 == 0
}

pub open spec fn days_in_month(y: int, m: int) -> int {
    if m == 2 {
        if is_leap_year(y) { 29 } else { 28 }
    } else if m == 4 || m == 6 || m == 9 || m == 11 {
        30
    } else {
        31
    }
}

/// Days in the months of year `y` that come before month `m`.
pub open spec fn days_before_month(y: int, m: int) -> int {
    let base: int = if m <= 1 { 0 }
        else if m == 2 { 31 }
        else if m == 3 { 59 }
        else if m == 4 { 90 }
        else if m == 5 { 120 }
        else if m == 6 { 151 }
        else if m == 7 { 181 }
        else if m == 8 { 212 }
        else if m == 9 { 243 }
        else if m == 10 { 273 }
        else if m == 11 { 304 }
        else { 334 };
    if m > 2 && is_leap_year(y) { base + 1 } else { base }
}

/// Days from 0001-01-01 to the first day of year `y`.
pub open spec fn days_before_year(y: int) -> int {
    let p = y - 1;
    365 * p + p / 4 - p / 100 + p / 400
}

/// A calendar date (year, month, day).
#[derive(Clone, Copy, PartialEq, Eq, Structural, Debug)]
pub struct Date {
    pub year: i32,
    pub month: u32,
    pub day: u32,
}

impl Date {
    /// The date exists in the proleptic Gregorian calendar and lies in the supported range.
    pub open spec fn wf(self) -> bool {
        &&& MIN_YEAR <= self.year <= MAX_YEAR
        &&& 1 <= self.month <= 12
        &&& 1 <= self.day <= days_in_month(self.year as int, self.month as int)
    }

    /// Number of days since 0001-01-01 (which is day 0).
    pub open spec fn day_number(self) -> int {
        days_before_year(self.year as int) + days_before_month(self.year as int, self.month as int)
            + self.day - 1
    }

    /// Day of the year, starting at 1.
    pub open spec fn ordinal(self) -> int {
        days_before_month(self.year as int, self.month as int) + self.day
    }

    /// Day of the week numbered from Monday (1) to Sunday (7); 0001-01-01 is a Monday.
    pub open spec fn weekday_spec(self) -> int {
        self.day_number() % 7 + 1
    }

    /// `self` comes strictly before `other`.
    pub open spec fn before(self, other: Date) -> bool {
        ||| self.year < other.year
        ||| self.year == other.year && self.month < other.month
        ||| self.year == other.year && self.month == other.month && self.day < other.day
    }
}

/// Weekday (Monday = 1) of the first of January of year `y`.
pub open spec fn jan1_weekday(y: int) -> int {
    days_before_year(y) % 7 + 1
}

/// Number of ISO weeks in year `y`.
pub open spec fn iso_weeks_in_year(y: int) -> int {
    let w = jan1_weekday(y);
    if w == 4 || (is_leap_year(y) && w == 3) { 53 } else { 52 }
}

/// ISO 8601 week number of a date.
pub open spec fn iso_week_spec(d: Date) -> int {
    let w = (d.ordinal() - d.weekday_spec() + 10) / 7;
    if w < 1 {
        iso_weeks_in_year(d.year - 1)
    } else if w > iso_weeks_in_year(d.year as int) {
        1
    } else {
        w
    }
}

/// ISO week numbers run from 1 to 53.
pub proof fn lemma_iso_week_range(d: Date)
    requires
        d.wf(),
    ensures
        1 <= iso_week_spec(d) <= 53,
{
    assert(d.ordinal() <= 366);
    assert(1 <= d.weekday_spec() <= 7);
}

/// Exec version of [is_leap_year].
pub fn leap_year(y: i32) -> (r: bool)
    ensures
        r == is_leap_year(y as int),
{
    // shift by a multiple of 400 into the non-negative range
    let u: u64 = (y as i64 + 2_400_000_000) as u64;
    proof {
        assert(u % 4 == y % 4) by (nonlinear_arith)
            requires u == y + 2_400_000_000;
        assert(u % 100 == y % 100) by (nonlinear_arith)
            requires u == y + 2_400_000_000;
        assert(u % 400 == y % 400) by (nonlinear_arith)
            requires u == y + 2_400_000_000;
    }
    (u % 4 == 0 && u % 100 != 0) || u % 400 == 0
}

/// Exec version of [days_in_month].
pub fn month_length(y: i32, m: u32) -> (r: u32)
    ensures
        r == days_in_month(y as int, m as int),
{
    if m == 2 {
        if leap_year(y) { 29 } else { 28 }
    } else if m == 4 || m == 6 || m == 9 || m == 11 {
        30
    } else {
        31
    }
}

/// `chrono::Datelike::num_days_from_ce` of the date. chrono documents it as the count of
/// days in the proleptic Gregorian calendar with 0001-01-01 as day 1: the day number plus one.
#[verifier::external_body]
fn chrono_num_days_from_ce(d: &Date) -> (r: i32)
    requires
        d.wf(),
    ensures
        r == d.day_number() + 1,
{
    chrono::Datelike::num_days_from_ce(&chrono::NaiveDate::from_ymd_opt(d.year, d.month, d.day).unwrap())
}

/// `chrono::Datelike::weekday(..).number_from_monday()` of the date: its day of the week in
/// the proleptic Gregorian calendar, Monday = 1 ... Sunday = 7 (0001-01-01 is a Monday).
#[verifier::external_body]
fn chrono_weekday(d: &Date) -> (r: u32)
    requires
        d.wf(),
    ensures
        r == d.weekday_spec(),
{
    chrono::Datelike::weekday(&chrono::NaiveDate::from_ymd_opt(d.year, d.month, d.day).unwrap()).number_from_monday()
}

/// `chrono::Datelike::ordinal` of the date, documented as its day of the year starting at 1.
#[verifier::external_body]
fn chrono_ordinal(d: &Date) -> (r: u32)
    requires
        d.wf(),
    ensures
        r == d.ordinal(),
{
    chrono::Datelike::ordinal(&chrono::NaiveDate::from_ymd_opt(d.year, d.month, d.day).unwrap())
}

/// `chrono::Datelike::iso_week(..).week()` of the date: its ISO 8601 week number.
#[verifier::external_body]
fn chrono_iso_week(d: &Date) -> (r: u32)
    requires
        d.wf(),
    ensures
        r == iso_week_spec(*d),
{
    chrono::Datelike::iso_week(&chrono::NaiveDate::from_ymd_opt(d.year, d.month, d.day).unwrap()).week()
}

/// `chrono::NaiveDate::succ_opt`: the next calendar date, `None` on chrono's last date
/// (the last supported date).
#[verifier::external_body]
fn chrono_succ(d: &Date) -> (r: Option<Date>)
    requires
        d.wf(),
    ensures
        r == (if *d == last_date() { None } else { Some(next_day_spec(*d)) }),
{
    match chrono::NaiveDate::from_ymd_opt(d.year, d.month, d.day).unwrap().succ_opt() {
        Some(x) => Some(Date { year: chrono::Datelike::year(&x), month: chrono::Datelike::month(&x), day: chrono::Datelike::day(&x) }),
        None => None,
    }
}

/// `chrono::NaiveDate::pred_opt`: the previous calendar date, `None` on chrono's first date
/// (the first supported date).
#[verifier::external_body]
fn chrono_pred(d: &Date) -> (r: Option<Date>)
    requires
        d.wf(),
    ensures
        r == (if *d == first_date() { None } else { Some(prev_day_spec(*d)) }),
{
    match chrono::NaiveDate::from_ymd_opt(d.year, d.month, d.day).unwrap().pred_opt() {
        Some(x) => Some(Date { year: chrono::Datelike::year(&x), month: chrono::Datelike::month(&x), day: chrono::Datelike::day(&x) }),
        None => None,
    }
}

/// `chrono::NaiveDate::checked_add_signed` with `n` whole days: the date `n` calendar days
/// away, `None` where that leaves chrono's range (the supported range).
#[verifier::external_body]
fn chrono_add_days(d: &Date, n: i32) -> (r: Option<Date>)
    requires
        d.wf(),
    ensures
        r == add_days_spec(*d, n as int),
{
    match chrono::NaiveDate::from_ymd_opt(d.year, d.month, d.day).unwrap().checked_add_signed(chrono::TimeDelta::days(n as i64)) {
        Some(x) => Some(Date { year: chrono::Datelike::year(&x), month: chrono::Datelike::month(&x), day: chrono::Datelike::day(&x) }),
        None => None,
    }
}

impl Date {
    /// Number of days since 0001-01-01.
    pub fn days_since_epoch(&self) -> (r: i64)
        requires
            self.wf(),
        ensures
            r == self.day_number(),
    {
        chrono_num_days_from_ce(self) as i64 - 1
    }

    /// Day of the week, Monday = 1 ... Sunday = 7.
    pub fn weekday_from_monday(&self) -> (r: u32)
        requires
            self.wf(),
        ensures
            r == self.weekday_spec(),
            1 <= r <= 7,
    {
        chrono_weekday(self)
    }

    /// Day of the year, starting at 1.
    pub fn day_of_year(&self) -> (r: i64)
        requires
            self.wf(),
        ensures
            r == self.ordinal(),
    {
        chrono_ordinal(self) as i64
    }

    /// Whether `self` comes strictly before `other`.
    /// Whether the date exists and lies in the supported range.
    pub fn is_valid(&self) -> (r: bool)
        ensures
            r == self.wf(),
    {
        MIN_YEAR <= self.year && self.year <= MAX_YEAR && 1 <= self.month && self.month <= 12
            && 1 <= self.day && self.day <= month_length(self.year, self.month)
    }

    pub fn is_before(&self, other: &Date) -> (r: bool)
        ensures
            r == self.before(*other),
    {
        self.year < other.year || (self.year == other.year && (self.month < other.month || (
        self.month == other.month && self.day < other.day)))
    }
}


/// The day after `d`.
pub open spec fn next_day_spec(d: Date) -> Date {
    if d.day < days_in_month(d.year as int, d.month as int) {
        Date { year: d.year, month: d.month, day: (d.day + 1) as u32 }
    } else if d.month < 12 {
        Date { year: d.year, month: (d.month + 1) as u32, day: 1 }
    } else {
        Date { year: (d.year + 1) as i32, month: 1, day: 1 }
    }
}

/// The day before `d`.
pub open spec fn prev_day_spec(d: Date) -> Date {
    if d.day > 1 {
        Date { year: d.year, month: d.month, day: (d.day - 1) as u32 }
    } else if d.month > 1 {
        Date {
            year: d.year,
            month: (d.month - 1) as u32,
            day: days_in_month(d.year as int, d.month - 1) as u32,
        }
    } else {
        Date { year: (d.year - 1) as i32, month: 12, day: 31 }
    }
}

/// The first supported date.
pub open spec fn first_date() -> Date {
    Date { year: MIN_YEAR, month: 1, day: 1 }
}

/// The last supported date.
pub open spec fn last_date() -> Date {
    Date { year: MAX_YEAR, month: 12, day: 31 }
}

proof fn lemma_year_length(y: int)
    ensures
        days_before_year(y + 1) == days_before_year(y) + if is_leap_year(y) { 366int } else { 365int },
{
    let p = y - 1;
    assert((p + 1) / 4 == p / 4 + if y % 4 == 0 { 1int } else { 0int }) by (nonlinear_arith)
        requires p == y - 1;
    assert((p + 1) / 100 == p / 100 + if y % 100 == 0 { 1int } else { 0int }) by (nonlinear_arith)
        requires p == y - 1;
    assert((p + 1) / 400 == p / 400 + if y % 400 == 0 { 1int } else { 0int }) by (nonlinear_arith)
        requires p == y - 1;
    assert(y % 400 == 0 ==> y % 100 == 0) by (nonlinear_arith);
    assert(y % 100 == 0 ==> y % 4 == 0) by (nonlinear_arith);
}

/// Stepping one day forward adds one to the day number.
pub proof fn lemma_next_day(d: Date)
    requires
        d.wf(),
        d != last_date(),
    ensures
        next_day_spec(d).wf(),
        next_day_spec(d).day_number() == d.day_number() + 1,
{
    if d.day >= days_in_month(d.year as int, d.month as int) && d.month >= 12 {
        lemma_year_length(d.year as int);
    }
}

/// Stepping one day back subtracts one from the day number.
pub proof fn lemma_prev_day(d: Date)
    requires
        d.wf(),
        d != first_date(),
    ensures
        prev_day_spec(d).wf(),
        prev_day_spec(d).day_number() == d.day_number() - 1,
{
    if d.day <= 1 && d.month <= 1 {
        lemma_year_length(d.year - 1);
    }
}

/// `n` days after `d` (before, for negative `n`), `None` when that leaves the supported range.
pub open spec fn add_days_spec(d: Date, n: int) -> Option<Date>
    decreases (if n < 0 { -n } else { n }),
{
    if n == 0 {
        Some(d)
    } else if n > 0 {
        if d == last_date() { None } else { add_days_spec(next_day_spec(d), n - 1) }
    } else {
        if d == first_date() { None } else { add_days_spec(prev_day_spec(d), n + 1) }
    }
}

/// The result of [add_days_spec] is a valid date `n` days away.
pub proof fn lemma_add_days(d: Date, n: int)
    requires
        d.wf(),
    ensures
        add_days_spec(d, n) matches Some(r) ==> r.wf() && r.day_number() == d.day_number() + n,
    decreases (if n < 0 { -n } else { n }),
{
    if n > 0 && d != last_date() {
        lemma_next_day(d);
        lemma_add_days(next_day_spec(d), n - 1);
    } else if n < 0 && d != first_date() {
        lemma_prev_day(d);
        lemma_add_days(prev_day_spec(d), n + 1);
    }
}

impl Date {
    /// The day after this one; `None` on the last supported date.
    pub fn succ(&self) -> (r: Option<Date>)
        requires
            self.wf(),
        ensures
            r == (if *self == last_date() { None } else { Some(next_day_spec(*self)) }),
    {
        chrono_succ(self)
    }

    /// The day before this one; `None` on the first supported date.
    pub fn pred(&self) -> (r: Option<Date>)
        requires
            self.wf(),
        ensures
            r == (if *self == first_date() { None } else { Some(prev_day_spec(*self)) }),
    {
        chrono_pred(self)
    }

    /// `n` days after this date (before it, for negative `n`).
    pub fn add_days(&self, n: i32) -> (r: Option<Date>)
        requires
            self.wf(),
        ensures
            r == add_days_spec(*self, n as int),
            r matches Some(x) ==> x.wf() && x.day_number() == self.day_number() + n,
    {
        proof {
            lemma_add_days(*self, n as int);
        }
        chrono_add_days(self, n)
    }

    /// ISO 8601 week number.
    pub fn iso_week(&self) -> (r: u32)
        requires
            self.wf(),
        ensures
            r == iso_week_spec(*self),
    {
        chrono_iso_week(self)
    }
}

/// A time of day: seconds since midnight plus a nanosecond fraction.
#[derive(Clone, Copy, PartialEq, Eq, Structural, Debug)]
pub struct Time {
    pub secs: u32,
    pub nano: u32,
}

impl Time {
    pub open spec fn wf(self) -> bool {
        self.secs < 86400 && self.nano < 1_000_000_000
    }

    pub open spec fn hour_spec(self) -> int {
        self.secs as int / 3600
    }

    pub open spec fn minute_spec(self) -> int {
        (self.secs as int % 3600) / 60
    }

    /// Nanoseconds since midnight.
    pub open spec fn total_nanos(self) -> int {
        self.secs * 1_000_000_000 + self.nano
    }

    /// `self` is strictly earlier in the day than `other`.
    pub open spec fn earlier(self, other: Time) -> bool {
        self.secs < other.secs || (self.secs == other.secs && self.nano < other.nano)
    }

    /// The time `hour:minute:00`, if both are in range.
    pub fn from_hm(hour: u32, minute: u32) -> (r: Option<Time>)
        ensures
            r matches Some(t) ==> t.wf() && t.hour_spec() == hour && t.minute_spec() == minute
                && t.nano == 0 && t.secs == hour * 3600 + minute * 60,
            r is None <==> !(hour < 24 && minute < 60),
    {
        if hour < 24 && minute < 60 {
            Some(Time { secs: hour * 3600 + minute * 60, nano: 0 })
        } else {
            None
        }
    }

    pub fn hour(&self) -> (r: u32)
        requires
            self.wf(),
        ensures
            r == self.hour_spec(),
            r < 24,
    {
        self.secs / 3600
    }

    pub fn minute(&self) -> (r: u32)
        requires
            self.wf(),
        ensures
            r == self.minute_spec(),
            r < 60,
    {
        (self.secs % 3600) / 60
    }

    /// Whether `self` is strictly earlier in the day than `other`.
    /// Whether the time lies within one day, without a leap second.
    pub fn is_valid(&self) -> (r: bool)
        ensures
            r == self.wf(),
    {
        self.secs < 86400 && self.nano < 1_000_000_000
    }

    pub fn is_earlier(&self, other: &Time) -> (r: bool)
        ensures
            r == self.earlier(*other),
    {
        self.secs < other.secs || (self.secs == other.secs && self.nano < other.nano)
    }
}

/// Integer division rounding toward zero.
pub open spec fn div_toward_zero(a: int, b: int) -> int {
    if a >= 0 { a / b } else { -((-a) / b) }
}

/// Remainder matching [div_toward_zero] (the sign follows `a`).
pub open spec fn rem_toward_zero(a: int, b: int) -> int {
    a - b * div_toward_zero(a, b)
}

/// A signed span of time in nanoseconds.
#[derive(Clone, Copy, PartialEq, Eq, Structural, Debug)]
pub struct TimeDelta {
    pub nanos: i128,
}

impl TimeDelta {
    /// Whole seconds, rounded toward zero.
    pub open spec fn seconds_spec(self) -> int {
        div_toward_zero(self.nanos as int, 1_000_000_000)
    }

    /// Whole minutes, rounded toward zero.
    pub open spec fn minutes_spec(self) -> int {
        div_toward_zero(self.seconds_spec(), 60)
    }

    /// Whole hours, rounded toward zero.
    pub open spec fn hours_spec(self) -> int {
        div_toward_zero(self.seconds_spec(), 3600)
    }

    pub fn num_seconds(&self) -> (r: i128)
        ensures
            r == self.seconds_spec(),
    {
        if self.nanos >= 0 {
            self.nanos / 1_000_000_000
        } else {
            let m: i128 = if self.nanos == i128::MIN { i128::MAX } else { -self.nanos };
            proof {
                if self.nanos == i128::MIN {
                    assert(i128::MAX / 1_000_000_000 == (-(self.nanos as int)) / 1_000_000_000);
                }
            }
            -(m / 1_000_000_000)
        }
    }

    pub fn num_minutes(&self) -> (r: i128)
        ensures
            r == self.minutes_spec(),
    {
        let s = self.num_seconds();
        if s >= 0 { s / 60 } else { -((-s) / 60) }
    }

    pub fn num_hours(&self) -> (r: i128)
        ensures
            r == self.hours_spec(),
    {
        let s = self.num_seconds();
        if s >= 0 { s / 3600 } else { -((-s) / 3600) }
    }
}

/// Nanoseconds from 0001-01-01T00:00 to the given date and time.
pub open spec fn moment(d: Date, t: Time) -> int {
    (d.day_number() * 86400 + t.secs) * 1_000_000_000 + t.nano
}

/// The span from `since_d since_t` to `d t`.
pub fn span_between(d: &Date, t: &Time, since_d: &Date, since_t: &Time) -> (r: TimeDelta)
    requires
        d.wf(),
        t.wf(),
        since_d.wf(),
        since_t.wf(),
    ensures
        r.nanos == moment(*d, *t) - moment(*since_d, *since_t),
{
    let days: i128 = d.days_since_epoch() as i128 - since_d.days_since_epoch() as i128;
    let secs: i128 = days * 86400 + t.secs as i128 - since_t.secs as i128;
    let r = secs * 1_000_000_000 + t.nano as i128 - since_t.nano as i128;
    proof {
        assert(r == moment(*d, *t) - moment(*since_d, *since_t)) by (nonlinear_arith)
            requires
                days == d.day_number() - since_d.day_number(),
                secs == days * 86400 + t.secs - since_t.secs,
                r == secs * 1_000_000_000 + t.nano - since_t.nano;
    }
    TimeDelta { nanos: r }
}


/// The year, month and day `chrono::NaiveDate::parse_from_str` reads from `s` with format `fmt`.
pub uninterp spec fn chrono_parse_date(s: Seq<char>, fmt: Seq<char>) -> Option<(i32, u32, u32)>;

/// Calls `chrono::NaiveDate::parse_from_str`. A parsed date is a valid date of chrono's
/// range, which this module's range is.
#[verifier::external_body]
pub fn parse_date(s: &str, fmt: &str) -> (r: Option<Date>)
    ensures
        r == (match chrono_parse_date(s@, fmt@) {
            Some((y, m, d)) => Some(Date { year: y, month: m, day: d }),
            None => None,
        }),
        r matches Some(d) ==> d.wf(),
{
    match chrono::NaiveDate::parse_from_str(s, fmt) {
        Ok(d) => Some(Date { year: chrono::Datelike::year(&d), month: chrono::Datelike::month(&d), day: chrono::Datelike::day(&d) }),
        Err(_) => None,
    }
}

/// The seconds since midnight and the nanosecond fraction that
/// `chrono::NaiveTime::parse_from_str` reads from `s` with format `fmt`.
pub uninterp spec fn chrono_parse_time(s: Seq<char>, fmt: Seq<char>) -> Option<(u32, u32)>;

/// Calls `chrono::NaiveTime::parse_from_str`. chrono documents the seconds since midnight
/// as below 86400 and the fraction as below 2 000 000 000 (a leap second counts in it).
#[verifier::external_body]
pub fn parse_time(s: &str, fmt: &str) -> (r: Option<Time>)
    ensures
        r == (match chrono_parse_time(s@, fmt@) {
            Some((secs, nano)) => Some(Time { secs, nano }),
            None => None,
        }),
        r matches Some(t) ==> t.secs < 86400 && t.nano < 2_000_000_000,
{
    match chrono::NaiveTime::parse_from_str(s, fmt) {
        Ok(t) => Some(Time {
            secs: chrono::Timelike::num_seconds_from_midnight(&t),
            nano: chrono::Timelike::nanosecond(&t),
        }),
        Err(_) => None,
    }
}

/// The date, seconds since midnight and nanosecond fraction that
/// `chrono::NaiveDateTime::parse_from_str` reads from `s` with format `fmt`.
pub uninterp spec fn chrono_parse_date_time(s: Seq<char>, fmt: Seq<char>) -> Option<(i32, u32, u32, u32, u32)>;

/// Calls `chrono::NaiveDateTime::parse_from_str`; the date is one of chrono's range, and
/// the time of day is bounded as for [parse_time].
#[verifier::external_body]
pub fn parse_date_time(s: &str, fmt: &str) -> (r: Option<(Date, Time)>)
    ensures
        r == (match chrono_parse_date_time(s@, fmt@) {
            Some((y, m, d, secs, nano)) => Some((Date { year: y, month: m, day: d }, Time { secs, nano })),
            None => None,
        }),
        r matches Some((d, t)) ==> d.wf() && t.secs < 86400 && t.nano < 2_000_000_000,
{
    match chrono::NaiveDateTime::parse_from_str(s, fmt) {
        Ok(dt) => Some((
            Date { year: chrono::Datelike::year(&dt), month: chrono::Datelike::month(&dt), day: chrono::Datelike::day(&dt) },
            Time { secs: chrono::Timelike::num_seconds_from_midnight(&dt), nano: chrono::Timelike::nanosecond(&dt) },
        )),
        Err(_) => None,
    }
}

} // verus!
