use mpeix::bot::{Reply, TimePrediction, UpcomingEventsPrediction};
use mpeix::calendar::{Date, Time, TimeDelta};
use mpeix::models::{Classes, ClassesTime, ClassesType, Day, ScheduleType, Week};
use mpeix::renderer::{
    render_classes, render_day, render_day_of_week, render_day_of_week_gen, render_duration, render_emoji_number,
    render_hours, render_message, render_minutes, render_month, render_week, RenderTargetPlatform,
    MSG_SHOW_HELP_TELEGRAM, MSG_SHOW_HELP_VK,
};

const NANOS_PER_MINUTE: i128 = 60_000_000_000;

fn hm(h: u32, m: u32) -> Time {
    Time { secs: h * 3600 + m * 60, nano: 0 }
}

fn classes(number: i8, raw_type: &str, groups: &str, person: &str, place: &str) -> Classes {
    Classes {
        name: "Матан".to_string(),
        classes_type: ClassesType::Lecture,
        raw_type: raw_type.to_string(),
        place: place.to_string(),
        groups: groups.to_string(),
        person: person.to_string(),
        time: ClassesTime { start: hm(9, 20), end: hm(10, 55) },
        number,
    }
}

fn minutes(m: i8) -> String {
    let mut s = String::new();
    render_minutes(m, &mut s);
    s
}

fn hours(h: i8) -> String {
    let mut s = String::new();
    render_hours(h, &mut s);
    s
}

fn duration(nanos: i128) -> String {
    let mut s = String::new();
    render_duration(&TimeDelta { nanos }, &mut s);
    s
}

#[test]
fn minutes_take_russian_plural_forms() {
    assert_eq!(minutes(1), "1 минуту");
    assert_eq!(minutes(3), "3 минуты");
    assert_eq!(minutes(5), "5 минут");
    assert_eq!(minutes(11), "11 минут");
    assert_eq!(minutes(14), "14 минут");
    assert_eq!(minutes(21), "21 минуту");
    assert_eq!(minutes(42), "42 минуты");
}

#[test]
fn hours_take_russian_plural_forms() {
    assert_eq!(hours(1), "1 час");
    assert_eq!(hours(2), "2 часа");
    assert_eq!(hours(5), "5 часов");
    assert_eq!(hours(12), "12 часов");
    assert_eq!(hours(21), "21 час");
    assert_eq!(hours(23), "23 часа");
}

#[test]
fn durations_in_hours_and_minutes() {
    assert_eq!(duration(90 * NANOS_PER_MINUTE), "1 час 30 минут");
    assert_eq!(duration(120 * NANOS_PER_MINUTE), "2 часа");
    assert_eq!(duration(45 * NANOS_PER_MINUTE), "45 минут");
    assert_eq!(duration(30_000_000_000), "");
    assert_eq!(duration(-45 * NANOS_PER_MINUTE), "");
}

#[test]
fn emoji_numbers() {
    assert_eq!(render_emoji_number(1), "1️⃣");
    assert_eq!(render_emoji_number(9), "9️⃣");
    assert_eq!(render_emoji_number(0), "🟢");
    assert_eq!(render_emoji_number(10), "🟢");
}

#[test]
fn names_of_days_and_months() {
    assert_eq!(render_day_of_week(3), "среда");
    assert_eq!(render_day_of_week_gen(2), "во вторник");
    assert_eq!(render_month(2), "февраля");
    assert_eq!(render_month(13), "");
}

#[test]
fn classes_of_a_group_show_the_lecturer() {
    let mut s = String::new();
    render_classes(&classes(2, "Лекция", "А-08-19", "Иванов И.И.", "Б-301"), ScheduleType::Group, &mut s);
    assert_eq!(s, "2️⃣ Матан (Лекция)\n👨‍🏫 Иванов И.И.\n🚪 Б-301\n🕖 С 09:20 до 10:55");
}

#[test]
fn classes_of_a_person_show_the_groups() {
    let mut s = String::new();
    render_classes(&classes(12, "", "А-08-19", "Иванов И.И.", ""), ScheduleType::Person, &mut s);
    assert_eq!(s, "🟢 Матан🎓 А-08-19\n🕖 С 09:20 до 10:55");
}

#[test]
fn today_and_other_days() {
    let day = Day { day_of_week: 2, date: Date { year: 2024, month: 3, day: 5 }, classes: vec![] };
    let mut s = String::new();
    render_day(0, &day, ScheduleType::Group, &mut s, false);
    assert_eq!(s, "Расписание сегодня\n\nНет пар 🤷");
    let mut s = String::new();
    render_day(1, &day, ScheduleType::Group, &mut s, false);
    assert_eq!(s, "Расписание во вторник, 5 марта\n\nНет пар 🤷");
}

#[test]
fn week_headings() {
    let day = Day {
        day_of_week: 2,
        date: Date { year: 2024, month: 3, day: 5 },
        classes: vec![classes(1, "", "", "", "")],
    };
    let week = Week { week_of_year: 10, week_of_semester: 3, first_day_of_week: Date { year: 2024, month: 3, day: 4 }, days: vec![day] };
    let mut s = String::new();
    render_week(&week, ScheduleType::Group, &mut s);
    assert_eq!(s, "Расписание на 3 учебную неделю\n\n📅 вторник, 5 марта\n\n1️⃣ Матан🕖 С 09:20 до 10:55");
    let empty = Week { week_of_year: 10, week_of_semester: -1, first_day_of_week: Date { year: 2024, month: 3, day: 4 }, days: vec![] };
    let mut s = String::new();
    render_week(&empty, ScheduleType::Group, &mut s);
    assert_eq!(s, "Расписание на неделю\n\nНет пар 🤷");
}

#[test]
fn help_depends_on_the_messenger() {
    assert_eq!(render_message(&Reply::ShowHelp, RenderTargetPlatform::Telegram), MSG_SHOW_HELP_TELEGRAM);
    assert_eq!(render_message(&Reply::ShowHelp, RenderTargetPlatform::Vk), MSG_SHOW_HELP_VK);
}

#[test]
fn changed_schedule_names_it() {
    let text = render_message(&Reply::ScheduleChangedSuccessfully("А-08-19".to_string()), RenderTargetPlatform::Vk);
    assert!(text.contains("А-08-19"));
}

#[test]
fn upcoming_events_text() {
    let reply = Reply::UpcomingEvents {
        prediction: UpcomingEventsPrediction::ClassesTodayNotStarted {
            time_prediction: TimePrediction::WithinOneDay(TimeDelta { nanos: 80 * NANOS_PER_MINUTE }),
            future_classes: vec![classes(1, "", "", "", "")],
        },
        schedule_type: ScheduleType::Group,
    };
    assert_eq!(
        render_message(&reply, RenderTargetPlatform::Telegram),
        "Ближайшая пара начнется через 1 час 20 минут:\n\n1️⃣ Матан🕖 С 09:20 до 10:55"
    );
    let far = Reply::UpcomingEvents {
        prediction: UpcomingEventsPrediction::ClassesInNDays {
            time_prediction: TimePrediction::WithinAWeek {
                date: Date { year: 2024, month: 3, day: 7 },
                duration: TimeDelta { nanos: 47 * 60 * NANOS_PER_MINUTE },
            },
            future_classes: vec![],
        },
        schedule_type: ScheduleType::Group,
    };
    assert_eq!(render_message(&far, RenderTargetPlatform::Vk), "Ближайшие пары в четверг, 7 марта:\n\n");
    let nothing = Reply::UpcomingEvents { prediction: UpcomingEventsPrediction::NoClassesNextWeek, schedule_type: ScheduleType::Group };
    assert_eq!(render_message(&nothing, RenderTargetPlatform::Vk), "В ближайшие несколько дней нет пар");
}

#[test]
fn started_classes_text() {
    let reply = Reply::UpcomingEvents {
        prediction: UpcomingEventsPrediction::ClassesTodayStarted {
            in_progress: Box::new(classes(1, "", "", "", "")),
            future_classes: Some(vec![classes(2, "", "", "", "")]),
        },
        schedule_type: ScheduleType::Group,
    };
    assert_eq!(
        render_message(&reply, RenderTargetPlatform::Vk),
        "Пара уже началась:\n\n1️⃣ Матан🕖 С 09:20 до 10:55\n\nДалее:\n\n2️⃣ Матан🕖 С 09:20 до 10:55"
    );
}
