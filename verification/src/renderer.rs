//! Turns the bot's replies into message text for the messengers.
use vstd::prelude::*;
use crate::bot::{PredictionView, Reply, TimePrediction, UpcomingEventsPrediction};
use crate::calendar::{Date, Time, TimeDelta, rem_toward_zero};
use crate::models::{Classes, ClassesView, Day, DayView, ScheduleType, Week, WeekView, classes_views, days_views};
use crate::text::{decimal, digit, digit_char, push_char, push_decimal, push_str};

verus! {

/// The messenger a message is rendered for.
#[derive(Clone, Copy, PartialEq, Eq, Structural, Debug)]
pub enum RenderTargetPlatform {
    Vk,
    Telegram,
}

/// Keycap emoji for the numbers 1 to 9, a green circle for any other number.
pub open spec fn emoji_number_spec(n: int) -> Seq<char> {
    if n == 1 { "1️⃣"@ }
    else if n == 2 { "2️⃣"@ }
    else if n == 3 { "3️⃣"@ }
    else if n == 4 { "4️⃣"@ }
    else if n == 5 { "5️⃣"@ }
    else if n == 6 { "6️⃣"@ }
    else if n == 7 { "7️⃣"@ }
    else if n == 8 { "8️⃣"@ }
    else if n == 9 { "9️⃣"@ }
    else { "🟢"@ }
}

pub fn render_emoji_number(n: i8) -> (r: &'static str)
    ensures
        r@ == emoji_number_spec(n as int),
{
    if n == 1 { "1️⃣" }
    else if n == 2 { "2️⃣" }
    else if n == 3 { "3️⃣" }
    else if n == 4 { "4️⃣" }
    else if n == 5 { "5️⃣" }
    else if n == 6 { "6️⃣" }
    else if n == 7 { "7️⃣" }
    else if n == 8 { "8️⃣" }
    else if n == 9 { "9️⃣" }
    else { "🟢" }
}

/// Name of the day of the week `w` (1 for Monday).
pub open spec fn day_of_week_spec(w: int) -> Seq<char> {
    if w == 1 { "понедельник"@ }
    else if w == 2 { "вторник"@ }
    else if w == 3 { "среда"@ }
    else if w == 4 { "четверг"@ }
    else if w == 5 { "пятница"@ }
    else if w == 6 { "суббота"@ }
    else { "воскресенье"@ }
}

pub fn render_day_of_week(w: u32) -> (r: &'static str)
    requires
        1 <= w <= 7,
    ensures
        r@ == day_of_week_spec(w as int),
{
    if w == 1 { "понедельник" }
    else if w == 2 { "вторник" }
    else if w == 3 { "среда" }
    else if w == 4 { "четверг" }
    else if w == 5 { "пятница" }
    else if w == 6 { "суббота" }
    else { "воскресенье" }
}

/// "On" the day of the week `w` (1 for Monday).
pub open spec fn day_of_week_gen_spec(w: int) -> Seq<char> {
    if w == 1 { "в понедельник"@ }
    else if w == 2 { "во вторник"@ }
    else if w == 3 { "в среду"@ }
    else if w == 4 { "в четверг"@ }
    else if w == 5 { "в пятницу"@ }
    else if w == 6 { "в субботу"@ }
    else { "в воскресенье"@ }
}

pub fn render_day_of_week_gen(w: u32) -> (r: &'static str)
    requires
        1 <= w <= 7,
    ensures
        r@ == day_of_week_gen_spec(w as int),
{
    if w == 1 { "в понедельник" }
    else if w == 2 { "во вторник" }
    else if w == 3 { "в среду" }
    else if w == 4 { "в четверг" }
    else if w == 5 { "в пятницу" }
    else if w == 6 { "в субботу" }
    else { "в воскресенье" }
}

/// Name of month `m` in the genitive; empty for a number that is no month.
pub open spec fn month_spec(m: int) -> Seq<char> {
    if m == 1 { "января"@ }
    else if m == 2 { "февраля"@ }
    else if m == 3 { "марта"@ }
    else if m == 4 { "апреля"@ }
    else if m == 5 { "мая"@ }
    else if m == 6 { "июня"@ }
    else if m == 7 { "июля"@ }
    else if m == 8 { "августа"@ }
    else if m == 9 { "сентября"@ }
    else if m == 10 { "октября"@ }
    else if m == 11 { "ноября"@ }
    else if m == 12 { "декабря"@ }
    else { ""@ }
}

/// Every month of the year has its own genitive name, from "января" for month 1 to
/// "декабря" for month 12: the name of month `m` is the `m`-th of that list, and two
/// different months never share a name.
pub proof fn lemma_month_names(m: int, n: int)
    requires
        1 <= m <= 12,
        1 <= n <= 12,
    ensures
        month_spec(m) == seq!["января"@, "февраля"@, "марта"@, "апреля"@, "мая"@, "июня"@, "июля"@,
            "августа"@, "сентября"@, "октября"@, "ноября"@, "декабря"@][m - 1],
        m != n ==> month_spec(m) != month_spec(n),
{
    reveal_strlit("января");
    reveal_strlit("февраля");
    reveal_strlit("марта");
    reveal_strlit("апреля");
    reveal_strlit("мая");
    reveal_strlit("июня");
    reveal_strlit("июля");
    reveal_strlit("августа");
    reveal_strlit("сентября");
    reveal_strlit("октября");
    reveal_strlit("ноября");
    reveal_strlit("декабря");
    if m != n && month_spec(m) == month_spec(n) {
        let a = month_spec(m);
        let b = month_spec(n);
        assert(a.len() == b.len());
        assert(a[0] == b[0]);
        assert(a[2] == b[2]);
        assert(false);
    }
}

pub fn render_month(m: u32) -> (r: &'static str)
    ensures
        r@ == month_spec(m as int),
{
    if m == 1 { "января" }
    else if m == 2 { "февраля" }
    else if m == 3 { "марта" }
    else if m == 4 { "апреля" }
    else if m == 5 { "мая" }
    else if m == 6 { "июня" }
    else if m == 7 { "июля" }
    else if m == 8 { "августа" }
    else if m == 9 { "сентября" }
    else if m == 10 { "октября" }
    else if m == 11 { "ноября" }
    else if m == 12 { "декабря" }
    else { "" }
}

/// A number below 100 with two digits.
pub open spec fn two_digits(n: int) -> Seq<char> {
    seq![digit_char(n / 10), digit_char(n % 10)]
}

/// A time of day as `%H:%M` formats it.
pub open spec fn hm_spec(t: Time) -> Seq<char> {
    two_digits(t.hour_spec()) + seq![':'] + two_digits(t.minute_spec())
}

fn push_hm(buf: &mut String, t: &Time)
    requires
        t.wf(),
    ensures
        final(buf)@ == old(buf)@ + hm_spec(*t),
{
    let h = t.hour() as u64;
    let m = t.minute() as u64;
    push_char(buf, digit(h / 10));
    push_char(buf, digit(h % 10));
    push_char(buf, ':');
    push_char(buf, digit(m / 10));
    push_char(buf, digit(m % 10));
    assert(final(buf)@ =~= old(buf)@ + hm_spec(*t));
}

/// Lines about who takes part: the groups for a person's schedule where known, else the lecturer where known.
pub open spec fn participants_spec(c: ClassesView, schedule_type: ScheduleType) -> Seq<char> {
    if schedule_type == ScheduleType::Person && c.groups.len() > 0 {
        "🎓 "@ + c.groups + "\n"@
    } else if c.person.len() > 0 {
        "👨‍🏫 "@ + c.person + "\n"@
    } else {
        Seq::empty()
    }
}

/// The type of a class in brackets, where it has one.
pub open spec fn type_part(c: ClassesView) -> Seq<char> {
    if c.raw_type.len() > 0 { " ("@ + c.raw_type + ")\n"@ } else { Seq::empty() }
}

/// The room of a class, where it has one.
pub open spec fn place_part(c: ClassesView) -> Seq<char> {
    if c.place.len() > 0 { "🚪 "@ + c.place + "\n"@ } else { Seq::empty() }
}

/// When a class starts and ends.
pub open spec fn times_part(c: ClassesView) -> Seq<char> {
    "🕖 С "@ + hm_spec(c.time.start) + " до "@ + hm_spec(c.time.end)
}

/// The text of one class.
pub open spec fn classes_spec(c: ClassesView, schedule_type: ScheduleType) -> Seq<char> {
    emoji_number_spec(c.number as int) + " "@ + c.name + type_part(c) + participants_spec(c, schedule_type)
        + place_part(c) + times_part(c)
}

/// The times of the class are valid.
pub open spec fn classes_wf(c: ClassesView) -> bool {
    c.time.start.wf() && c.time.end.wf()
}

fn push_type_part(c: &Classes, buf: &mut String)
    ensures
        final(buf)@ == old(buf)@ + type_part(c@),
{
    if c.raw_type.as_str().unicode_len() > 0 {
        push_str(buf, " (");
        push_str(buf, c.raw_type.as_str());
        push_str(buf, ")\n");
        assert(final(buf)@ =~= old(buf)@ + type_part(c@));
    } else {
        assert(final(buf)@ =~= old(buf)@ + type_part(c@));
    }
}

fn push_participants(c: &Classes, schedule_type: ScheduleType, buf: &mut String)
    ensures
        final(buf)@ == old(buf)@ + participants_spec(c@, schedule_type),
{
    if schedule_type == ScheduleType::Person && c.groups.as_str().unicode_len() > 0 {
        push_str(buf, "🎓 ");
        push_str(buf, c.groups.as_str());
        push_str(buf, "\n");
        assert(final(buf)@ =~= old(buf)@ + participants_spec(c@, schedule_type));
    } else if c.person.as_str().unicode_len() > 0 {
        push_str(buf, "👨‍🏫 ");
        push_str(buf, c.person.as_str());
        push_str(buf, "\n");
        assert(final(buf)@ =~= old(buf)@ + participants_spec(c@, schedule_type));
    } else {
        assert(final(buf)@ =~= old(buf)@ + participants_spec(c@, schedule_type));
    }
}

fn push_place_part(c: &Classes, buf: &mut String)
    ensures
        final(buf)@ == old(buf)@ + place_part(c@),
{
    if c.place.as_str().unicode_len() > 0 {
        push_str(buf, "🚪 ");
        push_str(buf, c.place.as_str());
        push_str(buf, "\n");
        assert(final(buf)@ =~= old(buf)@ + place_part(c@));
    } else {
        assert(final(buf)@ =~= old(buf)@ + place_part(c@));
    }
}

fn push_times_part(c: &Classes, buf: &mut String)
    requires
        classes_wf(c@),
    ensures
        final(buf)@ == old(buf)@ + times_part(c@),
{
    push_str(buf, "🕖 С ");
    push_hm(buf, &c.time.start);
    push_str(buf, " до ");
    push_hm(buf, &c.time.end);
    assert(final(buf)@ =~= old(buf)@ + times_part(c@));
}

pub fn render_classes(c: &Classes, schedule_type: ScheduleType, buf: &mut String)
    requires
        classes_wf(c@),
    ensures
        final(buf)@ == old(buf)@ + classes_spec(c@, schedule_type),
{
    push_str(buf, render_emoji_number(c.number));
    push_str(buf, " ");
    push_str(buf, c.name.as_str());
    let ghost s1 = buf@;
    push_type_part(c, buf);
    push_participants(c, schedule_type, buf);
    push_place_part(c, buf);
    push_times_part(c, buf);
    assert(s1 =~= old(buf)@ + (emoji_number_spec(c.number as int) + " "@ + c@.name));
    assert(final(buf)@ =~= old(buf)@ + classes_spec(c@, schedule_type));
}

/// Classes one after another, with an empty line between two.
pub open spec fn classes_list_spec(cs: Seq<ClassesView>, schedule_type: ScheduleType) -> Seq<char>
    decreases cs.len(),
{
    if cs.len() == 0 {
        Seq::empty()
    } else if cs.len() == 1 {
        classes_spec(cs[0], schedule_type)
    } else {
        classes_list_spec(cs.drop_last(), schedule_type) + "\n\n"@ + classes_spec(cs.last(), schedule_type)
    }
}

fn render_classes_list(cs: &Vec<Classes>, schedule_type: ScheduleType, buf: &mut String)
    requires
        all_classes_wf(classes_views(cs@)),
    ensures
        final(buf)@ == old(buf)@ + classes_list_spec(classes_views(cs@), schedule_type),
{
    let ghost cv = classes_views(cs@);
    let ghost start = buf@;
    let mut i: usize = 0;
    assert(cv.take(0) =~= Seq::<ClassesView>::empty());
    assert(start + classes_list_spec(cv.take(0), schedule_type) =~= start);
    while i < cs.len()
        invariant
            i <= cs@.len(),
            cv == classes_views(cs@),
            forall|j: int| 0 <= j < cv.len() ==> classes_wf(#[trigger] cv[j]),
            buf@ == start + classes_list_spec(cv.take(i as int), schedule_type),
        decreases cs@.len() - i,
    {
        let ghost before = buf@;
        assert(cv.take(i + 1).drop_last() =~= cv.take(i as int));
        assert(cv.take(i + 1).last() == cs@[i as int]@);
        assert(classes_wf(cv[i as int]));
        if i > 0 {
            push_str(buf, "\n\n");
        }
        render_classes(&cs[i], schedule_type, buf);
        proof {
            if i == 0 {
                assert(cv.take(1) =~= seq![cv[0]]);
                assert(buf@ =~= start + classes_list_spec(cv.take(1), schedule_type));
            } else {
                assert(buf@ =~= start + classes_list_spec(cv.take(i + 1), schedule_type));
            }
        }
        i = i + 1;
    }
    assert(cv.take(i as int) =~= cv);
}

/// The heading of a day; `inside_week` for a day listed in a week.
pub open spec fn day_heading_spec(day_offset: int, d: DayView, inside_week: bool) -> Seq<char> {
    (if !inside_week { "Расписание "@ } else { Seq::empty() })
        + (if day_offset == 0 && !inside_week {
            "сегодня\n\n"@
        } else {
            (if inside_week { "📅 "@ + day_of_week_spec(d.date.weekday_spec()) } else { day_of_week_gen_spec(d.date.weekday_spec()) })
                + ", "@ + decimal(d.date.day as int) + " "@ + month_spec(d.date.month as int) + "\n\n"@
        })
}

/// The heading and the classes of a day; `inside_week` for a day listed in a week.
pub open spec fn day_spec(day_offset: int, d: DayView, schedule_type: ScheduleType, inside_week: bool) -> Seq<char> {
    day_heading_spec(day_offset, d, inside_week)
        + (if d.classes.len() > 0 { classes_list_spec(d.classes, schedule_type) } else { "Нет пар 🤷"@ })
}

/// The date of the day and the times of its classes are valid.
pub open spec fn day_wf(d: DayView) -> bool {
    d.date.wf() && all_classes_wf(d.classes)
}

fn push_date_line(date: &Date, buf: &mut String, inside_week: bool)
    requires
        date.wf(),
    ensures
        final(buf)@ == old(buf)@
            + (if inside_week { "📅 "@ + day_of_week_spec(date.weekday_spec()) } else { day_of_week_gen_spec(date.weekday_spec()) })
            + ", "@ + decimal(date.day as int) + " "@ + month_spec(date.month as int) + "\n\n"@,
{
    let w = date.weekday_from_monday();
    let ghost start = buf@;
    if inside_week {
        push_str(buf, "📅 ");
        push_str(buf, render_day_of_week(w));
    } else {
        push_str(buf, render_day_of_week_gen(w));
    }
    let ghost after_name = buf@;
    assert(after_name =~= start + (if inside_week { "📅 "@ + day_of_week_spec(date.weekday_spec()) } else { day_of_week_gen_spec(date.weekday_spec()) }));
    push_str(buf, ", ");
    push_decimal(buf, date.day as i64);
    push_str(buf, " ");
    push_str(buf, render_month(date.month));
    push_str(buf, "\n\n");
}

fn push_day_heading(day_offset: i8, date: &Date, buf: &mut String, inside_week: bool)
    requires
        date.wf(),
    ensures
        forall|d: DayView| d.date == *date ==> final(buf)@ == old(buf)@ + #[trigger] day_heading_spec(day_offset as int, d, inside_week),
{
    if !inside_week {
        push_str(buf, "Расписание ");
    }
    let ghost s1 = buf@;
    if day_offset == 0 && !inside_week {
        push_str(buf, "сегодня\n\n");
    } else {
        push_date_line(date, buf, inside_week);
    }
    assert(s1 =~= old(buf)@ + (if !inside_week { "Расписание "@ } else { Seq::<char>::empty() }));
    assert forall|d: DayView| d.date == *date implies final(buf)@ == old(buf)@ + #[trigger] day_heading_spec(day_offset as int, d, inside_week) by {
        assert(final(buf)@ =~= old(buf)@ + day_heading_spec(day_offset as int, d, inside_week));
    }
}

pub fn render_day(day_offset: i8, day: &Day, schedule_type: ScheduleType, buf: &mut String, inside_week: bool)
    requires
        day_wf(day@),
    ensures
        final(buf)@ == old(buf)@ + day_spec(day_offset as int, day@, schedule_type, inside_week),
{
    push_day_heading(day_offset, &day.date, buf, inside_week);
    let ghost s1 = buf@;
    assert(s1 == old(buf)@ + day_heading_spec(day_offset as int, day@, inside_week));
    if day.classes.len() > 0 {
        render_classes_list(&day.classes, schedule_type, buf);
    } else {
        push_str(buf, "Нет пар 🤷");
    }
    assert(final(buf)@ =~= old(buf)@ + day_spec(day_offset as int, day@, schedule_type, inside_week));
}

/// Days one after another, with an empty line between two.
pub open spec fn days_list_spec(ds: Seq<DayView>, schedule_type: ScheduleType) -> Seq<char>
    decreases ds.len(),
{
    if ds.len() == 0 {
        Seq::empty()
    } else if ds.len() == 1 {
        day_spec(0, ds[0], schedule_type, true)
    } else {
        days_list_spec(ds.drop_last(), schedule_type) + "\n\n"@ + day_spec(0, ds.last(), schedule_type, true)
    }
}

/// The heading of a week (with its number in the semester, for study weeks 0 to 17) and its days.
pub open spec fn week_spec(w: WeekView, schedule_type: ScheduleType) -> Seq<char> {
    (if 0 <= w.week_of_semester <= 17 {
        "Расписание на "@ + decimal(w.week_of_semester as int) + " учебную неделю\n\n"@
    } else {
        "Расписание на неделю\n\n"@
    }) + (if w.days.len() == 0 { "Нет пар 🤷"@ } else { days_list_spec(w.days, schedule_type) })
}

/// All days of the week are valid.
pub open spec fn week_wf(w: WeekView) -> bool {
    forall|i: int| 0 <= i < w.days.len() ==> day_wf(#[trigger] w.days[i])
}

pub fn render_week(week: &Week, schedule_type: ScheduleType, buf: &mut String)
    requires
        week_wf(week@),
    ensures
        final(buf)@ == old(buf)@ + week_spec(week@, schedule_type),
{
    if 0 <= week.week_of_semester && week.week_of_semester <= 17 {
        push_str(buf, "Расписание на ");
        push_decimal(buf, week.week_of_semester as i64);
        push_str(buf, " учебную неделю\n\n");
    } else {
        push_str(buf, "Расписание на неделю\n\n");
    }
    let ghost start = buf@;
    if week.days.len() == 0 {
        push_str(buf, "Нет пар 🤷");
        assert(final(buf)@ =~= old(buf)@ + week_spec(week@, schedule_type));
        return;
    }
    let ghost dv = days_views(week.days@);
    let mut i: usize = 0;
    assert(dv.take(0) =~= Seq::<DayView>::empty());
    assert(start + days_list_spec(dv.take(0), schedule_type) =~= start);
    while i < week.days.len()
        invariant
            i <= week.days@.len(),
            dv == days_views(week.days@),
            dv == week@.days,
            week_wf(week@),
            buf@ == start + days_list_spec(dv.take(i as int), schedule_type),
        decreases week.days@.len() - i,
    {
        assert(dv.take(i + 1).drop_last() =~= dv.take(i as int));
        assert(dv.take(i + 1).last() == dv[i as int]);
        assert(dv[i as int] == week.days@[i as int]@);
        if i > 0 {
            push_str(buf, "\n\n");
        }
        render_day(0, &week.days[i], schedule_type, buf, true);
        proof {
            if i == 0 {
                assert(dv.take(1) =~= seq![dv[0]]);
                assert(buf@ =~= start + days_list_spec(dv.take(1), schedule_type));
            } else {
                assert(buf@ =~= start + days_list_spec(dv.take(i + 1), schedule_type));
            }
        }
        i = i + 1;
    }
    assert(dv.take(i as int) =~= dv);
    assert(final(buf)@ =~= old(buf)@ + week_spec(week@, schedule_type));
}

/// The word for `n` minutes after the number.
pub open spec fn minutes_word(n: int) -> Seq<char> {
    if 11 <= n <= 19 { " минут"@ }
    else if n >= 0 && n % 10 == 1 { " минуту"@ }
    else if n >= 0 && 2 <= n % 10 <= 4 { " минуты"@ }
    else { " минут"@ }
}

/// The word for `n` hours after the number.
pub open spec fn hours_word(n: int) -> Seq<char> {
    if 11 <= n <= 19 { " часов"@ }
    else if n >= 0 && n % 10 == 1 { " час"@ }
    else if n >= 0 && 2 <= n % 10 <= 4 { " часа"@ }
    else { " часов"@ }
}

pub fn render_minutes(m: i8, buf: &mut String)
    ensures
        final(buf)@ == old(buf)@ + decimal(m as int) + minutes_word(m as int),
{
    push_decimal(buf, m as i64);
    if 11 <= m && m <= 19 {
        push_str(buf, " минут");
    } else if m >= 0 && (m as u8) % 10 == 1 {
        push_str(buf, " минуту");
    } else if m >= 0 && 2 <= (m as u8) % 10 && (m as u8) % 10 <= 4 {
        push_str(buf, " минуты");
    } else {
        push_str(buf, " минут");
    }
}

pub fn render_hours(h: i8, buf: &mut String)
    ensures
        final(buf)@ == old(buf)@ + decimal(h as int) + hours_word(h as int),
{
    push_decimal(buf, h as i64);
    if 11 <= h && h <= 19 {
        push_str(buf, " часов");
    } else if h >= 0 && (h as u8) % 10 == 1 {
        push_str(buf, " час");
    } else if h >= 0 && 2 <= (h as u8) % 10 && (h as u8) % 10 <= 4 {
        push_str(buf, " часа");
    } else {
        push_str(buf, " часов");
    }
}

/// A span as hours and minutes: whole hours, then the minutes of the last hour, each only
/// when positive; nothing for a span under a minute or negative.
pub open spec fn duration_spec(d: TimeDelta) -> Seq<char> {
    let h = d.hours_spec();
    let m = rem_toward_zero(d.minutes_spec(), 60);
    if h > 0 && m > 0 {
        decimal((h as i8) as int) + hours_word((h as i8) as int) + " "@ + decimal((m as i8) as int) + minutes_word((m as i8) as int)
    } else if h > 0 && m == 0 {
        decimal((h as i8) as int) + hours_word((h as i8) as int)
    } else if h == 0 && m > 0 {
        decimal((m as i8) as int) + minutes_word((m as i8) as int)
    } else {
        Seq::empty()
    }
}

pub fn render_duration(d: &TimeDelta, buf: &mut String)
    ensures
        final(buf)@ == old(buf)@ + duration_spec(*d),
{
    let h = d.num_hours();
    let minutes = d.num_minutes();
    if minutes < 0 {
        assert(d.seconds_spec() < 0);
        assert(h <= 0);
        assert(rem_toward_zero(d.minutes_spec(), 60) <= 0);
        assert(final(buf)@ =~= old(buf)@ + duration_spec(*d));
        return;
    }
    let m = minutes % 60;
    assert(m == rem_toward_zero(d.minutes_spec(), 60));
    if h > 0 && m > 0 {
        render_hours(h as i8, buf);
        push_str(buf, " ");
        render_minutes(m as i8, buf);
    } else if h > 0 && m == 0 {
        render_hours(h as i8, buf);
    } else if h == 0 && m > 0 {
        render_minutes(m as i8, buf);
    }
    assert(final(buf)@ =~= old(buf)@ + duration_spec(*d));
}

/// When the next classes start, ending with a colon and an empty line.
pub open spec fn time_prediction_spec(tp: TimePrediction) -> Seq<char> {
    (match tp {
        TimePrediction::WithinOneDay(d) => "Ближайшая пара начнется через "@ + duration_spec(d),
        TimePrediction::WithinAWeek { date, duration } => if duration.hours_spec() < 24 {
            "Ближайшая пара начнется через "@ + duration_spec(duration)
        } else {
            "Ближайшие пары "@ + day_of_week_gen_spec(date.weekday_spec()) + ", "@ + decimal(date.day as int)
                + " "@ + month_spec(date.month as int)
        },
    }) + ":\n\n"@
}

pub open spec fn time_prediction_wf(tp: TimePrediction) -> bool {
    match tp {
        TimePrediction::WithinOneDay(_) => true,
        TimePrediction::WithinAWeek { date, .. } => date.wf(),
    }
}

fn render_time_prediction(tp: &TimePrediction, buf: &mut String)
    requires
        time_prediction_wf(*tp),
    ensures
        final(buf)@ == old(buf)@ + time_prediction_spec(*tp),
{
    match tp {
        TimePrediction::WithinOneDay(d) => {
            push_str(buf, "Ближайшая пара начнется через ");
            render_duration(d, buf);
        },
        TimePrediction::WithinAWeek { date, duration } => {
            if duration.num_hours() < 24 {
                push_str(buf, "Ближайшая пара начнется через ");
                render_duration(duration, buf);
            } else {
                push_str(buf, "Ближайшие пары ");
                push_str(buf, render_day_of_week_gen(date.weekday_from_monday()));
                push_str(buf, ", ");
                push_decimal(buf, date.day as i64);
                push_str(buf, " ");
                push_str(buf, render_month(date.month));
            }
        },
    }
    push_str(buf, ":\n\n");
    assert(final(buf)@ =~= old(buf)@ + time_prediction_spec(*tp));
}

/// The text of a forecast of upcoming classes.
pub open spec fn prediction_text_spec(p: PredictionView, schedule_type: ScheduleType) -> Seq<char> {
    match p {
        PredictionView::NoClassesNextWeek => "В ближайшие несколько дней нет пар"@,
        PredictionView::ClassesTodayNotStarted(tp, cs) => time_prediction_spec(tp) + classes_list_spec(cs, schedule_type),
        PredictionView::ClassesTodayStarted(c, future) => "Пара уже началась:\n\n"@ + classes_spec(c, schedule_type)
            + (match future {
                Some(cs) => "\n\nДалее:\n\n"@ + classes_list_spec(cs, schedule_type),
                None => Seq::empty(),
            }),
        PredictionView::ClassesInNDays(tp, cs) => time_prediction_spec(tp) + classes_list_spec(cs, schedule_type),
    }
}

/// The dates and times in a forecast are valid.
pub open spec fn prediction_wf(p: PredictionView) -> bool {
    match p {
        PredictionView::NoClassesNextWeek => true,
        PredictionView::ClassesTodayNotStarted(tp, cs) => time_prediction_wf(tp) && all_classes_wf(cs),
        PredictionView::ClassesTodayStarted(c, future) => classes_wf(c) && (match future {
            Some(cs) => all_classes_wf(cs),
            None => true,
        }),
        PredictionView::ClassesInNDays(tp, cs) => time_prediction_wf(tp) && all_classes_wf(cs),
    }
}

/// The times of all the classes are valid.
pub open spec fn all_classes_wf(cs: Seq<ClassesView>) -> bool {
    forall|i: int| 0 <= i < cs.len() ==> classes_wf(#[trigger] cs[i])
}

fn render_prediction_classes(tp: &TimePrediction, future_classes: &Vec<Classes>, schedule_type: ScheduleType, buf: &mut String)
    requires
        time_prediction_wf(*tp),
        all_classes_wf(classes_views(future_classes@)),
    ensures
        final(buf)@ == old(buf)@ + time_prediction_spec(*tp) + classes_list_spec(classes_views(future_classes@), schedule_type),
{
    render_time_prediction(tp, buf);
    render_classes_list(future_classes, schedule_type, buf);
}

fn render_started(in_progress: &Classes, future_classes: &Option<Vec<Classes>>, schedule_type: ScheduleType, buf: &mut String)
    requires
        classes_wf(in_progress@),
        future_classes matches Some(cs) ==> all_classes_wf(classes_views(cs@)),
    ensures
        final(buf)@ == old(buf)@ + "Пара уже началась:\n\n"@ + classes_spec(in_progress@, schedule_type)
            + (match future_classes {
                Some(cs) => "\n\nДалее:\n\n"@ + classes_list_spec(classes_views(cs@), schedule_type),
                None => Seq::empty(),
            }),
{
    push_str(buf, "Пара уже началась:\n\n");
    render_classes(in_progress, schedule_type, buf);
    let ghost s1 = buf@;
    match future_classes {
        Some(classes) => {
            push_str(buf, "\n\nДалее:\n\n");
            render_classes_list(classes, schedule_type, buf);
            assert(final(buf)@ =~= s1 + ("\n\nДалее:\n\n"@ + classes_list_spec(classes_views(classes@), schedule_type)));
        },
        None => {
            assert(final(buf)@ =~= s1 + Seq::<char>::empty());
        },
    }
}

fn render_upcoming_events(prediction: &UpcomingEventsPrediction, schedule_type: ScheduleType, buf: &mut String)
    requires
        prediction_wf(prediction@),
    ensures
        final(buf)@ == old(buf)@ + prediction_text_spec(prediction@, schedule_type),
{
    match prediction {
        UpcomingEventsPrediction::NoClassesNextWeek => {
            push_str(buf, "В ближайшие несколько дней нет пар");
        },
        UpcomingEventsPrediction::ClassesTodayNotStarted { time_prediction, future_classes } => {
            render_prediction_classes(time_prediction, future_classes, schedule_type, buf);
            assert(final(buf)@ =~= old(buf)@ + prediction_text_spec(prediction@, schedule_type));
        },
        UpcomingEventsPrediction::ClassesTodayStarted { in_progress, future_classes } => {
            render_started(in_progress, future_classes, schedule_type, buf);
            assert(final(buf)@ =~= old(buf)@ + prediction_text_spec(prediction@, schedule_type));
        },
        UpcomingEventsPrediction::ClassesInNDays { time_prediction, future_classes } => {
            render_prediction_classes(time_prediction, future_classes, schedule_type, buf);
            assert(final(buf)@ =~= old(buf)@ + prediction_text_spec(prediction@, schedule_type));
        },
    }
}

/// Text before the name in the message about a schedule that was not found.
pub const CANNOT_FIND_SCHEDULE_HEAD: &'static str = "Не удалось найти расписание «";

/// Text after the name in the message about a schedule that was not found.
pub const CANNOT_FIND_SCHEDULE_TAIL: &'static str = "». Отправьте номер группы (например, «А-08-19») или фамилию преподавателя.";

/// Where the name goes in the message about a schedule that was not found.
pub const SCHEDULE_NAME_PLACEHOLDER: &'static str = "{schedule_name}";

/// The message for a peer who has a schedule already.
pub const MSG_ALREADY_STARTED: &'static str = "Расписание уже выбрано. Чтобы выбрать другое, отправьте «Сменить».";

/// Text before the name in the message about a changed schedule.
pub const SCHEDULE_CHANGED_HEAD: &'static str = "Расписание изменено на «";

/// Text after the name in the message about a changed schedule.
pub const SCHEDULE_CHANGED_TAIL: &'static str = "».";

/// Text before the query in the message offering search results.
pub const SEARCH_RESULTS_HEAD: &'static str = "Расписание «";

/// Text after the query in the message offering search results.
pub const SEARCH_RESULTS_TAIL: &'static str = "» не найдено. Возможно, вы искали одно из этих:";

/// The message for a peer about to choose a schedule.
pub const MSG_READY_TO_CHANGE_SCHEDULE: &'static str = "Отправьте номер группы или фамилию преподавателя.";

pub const MSG_SHOW_HELP_TELEGRAM: &'static str = "Команды: /today, /tomorrow, /thisweek, /nextweek, /status, /change, /help.";
pub const MSG_SHOW_HELP_VK: &'static str = "Команды: «Сегодня», «Завтра», «Эта неделя», «Следующая неделя», «Статус», «Сменить», «Помощь».";
pub const MSG_UNKNOWN_COMMAND_TELEGRAM: &'static str = "Неизвестная команда. Список команд: /help.";
pub const MSG_UNKNOWN_COMMAND_VK: &'static str = "Неизвестная команда. Список команд: «Помощь».";
pub const MSG_UNKNOWN_MESSAGE_TYPE_TELEGRAM: &'static str = "Бот понимает только текстовые сообщения. Список команд: /help.";
pub const MSG_UNKNOWN_MESSAGE_TYPE_VK: &'static str = "Бот понимает только текстовые сообщения. Список команд: «Помощь».";
pub const MSG_INTERNAL_ERROR_TELEGRAM: &'static str = "Что-то пошло не так. Попробуйте позже или напишите /help.";
pub const MSG_INTERNAL_ERROR_VK: &'static str = "Что-то пошло не так. Попробуйте позже или напишите «Помощь».";

/// The dates and times a reply shows are valid.
pub open spec fn reply_wf(reply: Reply) -> bool {
    match reply {
        Reply::Week { week, .. } => week_wf(week@),
        Reply::Day { day, .. } => day_wf(day@),
        Reply::UpcomingEvents { prediction, .. } => prediction_wf(prediction@),
        _ => true,
    }
}

/// The text of a reply for a messenger.
pub open spec fn render_message_spec(reply: Reply, platform: RenderTargetPlatform) -> Seq<char> {
    match reply {
        Reply::StartGreetings => CANNOT_FIND_SCHEDULE_HEAD@ + SCHEDULE_NAME_PLACEHOLDER@ + CANNOT_FIND_SCHEDULE_TAIL@,
        Reply::AlreadyStarted { .. } => MSG_ALREADY_STARTED@,
        Reply::Week { week, schedule_type, .. } => week_spec(week@, schedule_type),
        Reply::Day { day_offset, day, schedule_type } => day_spec(day_offset as int, day@, schedule_type, false),
        Reply::UpcomingEvents { prediction, schedule_type } => prediction_text_spec(prediction@, schedule_type),
        Reply::ScheduleChangedSuccessfully(name) => SCHEDULE_CHANGED_HEAD@ + name@ + SCHEDULE_CHANGED_TAIL@,
        Reply::ScheduleSearchResults { schedule_name, .. } => SEARCH_RESULTS_HEAD@ + schedule_name@ + SEARCH_RESULTS_TAIL@,
        Reply::CannotFindSchedule(q) => CANNOT_FIND_SCHEDULE_HEAD@ + q@ + CANNOT_FIND_SCHEDULE_TAIL@,
        Reply::ReadyToChangeSchedule => MSG_READY_TO_CHANGE_SCHEDULE@,
        Reply::ShowHelp => match platform {
            RenderTargetPlatform::Telegram => MSG_SHOW_HELP_TELEGRAM@,
            RenderTargetPlatform::Vk => MSG_SHOW_HELP_VK@,
        },
        Reply::UnknownCommand => match platform {
            RenderTargetPlatform::Telegram => MSG_UNKNOWN_COMMAND_TELEGRAM@,
            RenderTargetPlatform::Vk => MSG_UNKNOWN_COMMAND_VK@,
        },
        Reply::UnknownMessageType => match platform {
            RenderTargetPlatform::Telegram => MSG_UNKNOWN_MESSAGE_TYPE_TELEGRAM@,
            RenderTargetPlatform::Vk => MSG_UNKNOWN_MESSAGE_TYPE_VK@,
        },
        Reply::InternalError => match platform {
            RenderTargetPlatform::Telegram => MSG_INTERNAL_ERROR_TELEGRAM@,
            RenderTargetPlatform::Vk => MSG_INTERNAL_ERROR_VK@,
        },
    }
}

fn framed(head: &str, middle: &str, tail: &str) -> (r: String)
    ensures
        r@ == head@ + middle@ + tail@,
{
    let mut buf = String::new();
    push_str(&mut buf, head);
    push_str(&mut buf, middle);
    push_str(&mut buf, tail);
    assert(buf@ =~= head@ + middle@ + tail@);
    buf
}

/// Turns a reply into the text of the message sent to the messenger.
pub fn render_message(reply: &Reply, platform: RenderTargetPlatform) -> (r: String)
    requires
        reply_wf(*reply),
    ensures
        r@ == render_message_spec(*reply, platform),
{
    match reply {
        Reply::StartGreetings => framed(CANNOT_FIND_SCHEDULE_HEAD, SCHEDULE_NAME_PLACEHOLDER, CANNOT_FIND_SCHEDULE_TAIL),
        Reply::AlreadyStarted { .. } => crate::text::copy_string(MSG_ALREADY_STARTED),
        Reply::Week { week, schedule_type, .. } => {
            let mut buf = String::new();
            render_week(week, *schedule_type, &mut buf);
            assert(buf@ =~= week_spec(week@, *schedule_type));
            buf
        },
        Reply::Day { day_offset, day, schedule_type } => {
            let mut buf = String::new();
            render_day(*day_offset, day, *schedule_type, &mut buf, false);
            assert(buf@ =~= day_spec(*day_offset as int, day@, *schedule_type, false));
            buf
        },
        Reply::UpcomingEvents { prediction, schedule_type } => {
            let mut buf = String::new();
            render_upcoming_events(prediction, *schedule_type, &mut buf);
            assert(buf@ =~= prediction_text_spec(prediction@, *schedule_type));
            buf
        },
        Reply::ScheduleChangedSuccessfully(name) => framed(SCHEDULE_CHANGED_HEAD, name.as_str(), SCHEDULE_CHANGED_TAIL),
        Reply::ScheduleSearchResults { schedule_name, .. } => framed(SEARCH_RESULTS_HEAD, schedule_name.as_str(), SEARCH_RESULTS_TAIL),
        Reply::CannotFindSchedule(q) => framed(CANNOT_FIND_SCHEDULE_HEAD, q.as_str(), CANNOT_FIND_SCHEDULE_TAIL),
        Reply::ReadyToChangeSchedule => crate::text::copy_string(MSG_READY_TO_CHANGE_SCHEDULE),
        Reply::ShowHelp => match platform {
            RenderTargetPlatform::Telegram => crate::text::copy_string(MSG_SHOW_HELP_TELEGRAM),
            RenderTargetPlatform::Vk => crate::text::copy_string(MSG_SHOW_HELP_VK),
        },
        Reply::UnknownCommand => match platform {
            RenderTargetPlatform::Telegram => crate::text::copy_string(MSG_UNKNOWN_COMMAND_TELEGRAM),
            RenderTargetPlatform::Vk => crate::text::copy_string(MSG_UNKNOWN_COMMAND_VK),
        },
        Reply::UnknownMessageType => match platform {
            RenderTargetPlatform::Telegram => crate::text::copy_string(MSG_UNKNOWN_MESSAGE_TYPE_TELEGRAM),
            RenderTargetPlatform::Vk => crate::text::copy_string(MSG_UNKNOWN_MESSAGE_TYPE_VK),
        },
        Reply::InternalError => match platform {
            RenderTargetPlatform::Telegram => crate::text::copy_string(MSG_INTERNAL_ERROR_TELEGRAM),
            RenderTargetPlatform::Vk => crate::text::copy_string(MSG_INTERNAL_ERROR_VK),
        },
    }
}

fn all_classes_valid(cs: &Vec<Classes>) -> (r: bool)
    ensures
        r == all_classes_wf(classes_views(cs@)),
{
    let ghost cv = classes_views(cs@);
    let mut i: usize = 0;
    while i < cs.len()
        invariant
            i <= cs@.len(),
            cv == classes_views(cs@),
            forall|j: int| 0 <= j < i ==> classes_wf(#[trigger] cv[j]),
        decreases cs@.len() - i,
    {
        assert(cv[i as int] == cs@[i as int]@);
        if !(cs[i].time.start.is_valid() && cs[i].time.end.is_valid()) {
            return false;
        }
        i = i + 1;
    }
    true
}

fn day_valid(d: &Day) -> (r: bool)
    ensures
        r == day_wf(d@),
{
    d.date.is_valid() && all_classes_valid(&d.classes)
}

fn week_valid(w: &Week) -> (r: bool)
    ensures
        r == week_wf(w@),
{
    let ghost dv = days_views(w.days@);
    let mut i: usize = 0;
    while i < w.days.len()
        invariant
            i <= w.days@.len(),
            dv == days_views(w.days@),
            dv == w@.days,
            forall|j: int| 0 <= j < i ==> day_wf(#[trigger] dv[j]),
        decreases w.days@.len() - i,
    {
        assert(dv[i as int] == w.days@[i as int]@);
        if !day_valid(&w.days[i]) {
            return false;
        }
        i = i + 1;
    }
    true
}

fn time_prediction_valid(tp: &TimePrediction) -> (r: bool)
    ensures
        r == time_prediction_wf(*tp),
{
    match tp {
        TimePrediction::WithinOneDay(_) => true,
        TimePrediction::WithinAWeek { date, .. } => date.is_valid(),
    }
}

/// Whether a reply can be rendered: the dates and times it shows are valid.
pub fn reply_renderable(reply: &Reply) -> (r: bool)
    ensures
        r == reply_wf(*reply),
{
    match reply {
        Reply::Week { week, .. } => week_valid(week),
        Reply::Day { day, .. } => day_valid(day),
        Reply::UpcomingEvents { prediction, .. } => match prediction {
            UpcomingEventsPrediction::NoClassesNextWeek => true,
            UpcomingEventsPrediction::ClassesTodayNotStarted { time_prediction, future_classes } =>
                time_prediction_valid(time_prediction) && all_classes_valid(future_classes),
            UpcomingEventsPrediction::ClassesTodayStarted { in_progress, future_classes } => {
                let first = in_progress.time.start.is_valid() && in_progress.time.end.is_valid();
                first && match future_classes {
                    Some(cs) => all_classes_valid(cs),
                    None => true,
                }
            },
            UpcomingEventsPrediction::ClassesInNDays { time_prediction, future_classes } =>
                time_prediction_valid(time_prediction) && all_classes_valid(future_classes),
        },
        _ => true,
    }
}

} // verus!
