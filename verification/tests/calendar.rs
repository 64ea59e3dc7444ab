use mpeix::calendar::Date;

fn leap(y: i64) -> bool {
    (y % 4 == 0 && y % 100 != 0) || y % 400 == 0
}

fn days_before_month(y: i64, m: i64) -> i64 {
    let base = [0, 0, 31, 59, 90, 120, 151, 181, 212, 243, 273, 304, 334][m as usize];
    if m > 2 && leap(y) { base + 1 } else { base }
}

fn days_before_year(y: i64) -> i64 {
    let p = y - 1;
    365 * p + p.div_euclid(4) - p.div_euclid(100) + p.div_euclid(400)
}

fn day_number(d: Date) -> i64 {
    days_before_year(d.year as i64) + days_before_month(d.year as i64, d.month as i64) + d.day as i64 - 1
}

fn weekday(d: Date) -> i64 {
    day_number(d).rem_euclid(7) + 1
}

fn iso_weeks_in_year(y: i64) -> i64 {
    let w = days_before_year(y).rem_euclid(7) + 1;
    if w == 4 || (leap(y) && w == 3) { 53 } else { 52 }
}

fn iso_week(d: Date) -> i64 {
    let ordinal = days_before_month(d.year as i64, d.month as i64) + d.day as i64;
    let w = (ordinal - weekday(d) + 10).div_euclid(7);
    if w < 1 {
        iso_weeks_in_year(d.year as i64 - 1)
    } else if w > iso_weeks_in_year(d.year as i64) {
        1
    } else {
        w
    }
}

/// Walks day by day from `start` for `days` days, holding every date operation to the
/// calendar's definitions.
fn walk(start: Date, days: u32) {
    let mut d = start;
    for _ in 0..days {
        assert_eq!(d.days_since_epoch(), day_number(d), "{:?}", d);
        assert_eq!(d.weekday_from_monday() as i64, weekday(d), "{:?}", d);
        assert_eq!(d.day_of_year(), days_before_month(d.year as i64, d.month as i64) + d.day as i64, "{:?}", d);
        assert_eq!(d.iso_week() as i64, iso_week(d), "{:?}", d);
        if let Some(x) = d.add_days(-400) {
            assert_eq!(day_number(x), day_number(d) - 400);
        }
        let next = d.succ().unwrap();
        assert_eq!(day_number(next), day_number(d) + 1, "{:?}", d);
        assert_eq!(next.pred(), Some(d));
        assert_eq!(d.add_days(1), Some(next));
        d = next;
    }
}

#[test]
fn dates_follow_the_calendar_around_today() {
    walk(Date { year: 1990, month: 1, day: 1 }, 20000);
}

#[test]
fn dates_follow_the_calendar_around_year_one() {
    walk(Date { year: -5, month: 1, day: 1 }, 4000);
}

#[test]
fn dates_follow_the_calendar_at_the_ends() {
    walk(Date { year: -262143, month: 1, day: 1 }, 800);
    walk(Date { year: 262141, month: 11, day: 1 }, 425);
    let last = Date { year: 262142, month: 12, day: 31 };
    assert_eq!(last.succ(), None);
    assert_eq!(last.add_days(1), None);
    let first = Date { year: -262143, month: 1, day: 1 };
    assert_eq!(first.pred(), None);
    assert_eq!(first.add_days(-1), None);
    assert_eq!(first.add_days(i32::MAX), None);
}
