use mpeix::bot::{
    failure_reply,
    day_reply, day_request, handle_start, plan_reply, predict_upcoming_events, search_reply, upcoming_events_reply,
    week_reply, NextStep, Peer, PlatformId, Reply, TextToActionUseCase, TimePrediction, UpcomingEventsPrediction,
    UserAction,
};
use mpeix::calendar::{Date, Time, TimeDelta};
use mpeix::errors::{CommonError, ErrorKind};
use mpeix::models::{Classes, ClassesTime, ClassesType, Day, Schedule, ScheduleSearchResult, ScheduleType, Week};

fn date(year: i32, month: u32, day: u32) -> Date {
    Date { year, month, day }
}

fn hm(h: u32, m: u32) -> Time {
    Time { secs: h * 3600 + m * 60, nano: 0 }
}

fn classes(name: &str, start: Time, end: Time) -> Classes {
    Classes {
        name: name.to_string(),
        classes_type: ClassesType::Lecture,
        raw_type: "Лекция".to_string(),
        place: "Б-301".to_string(),
        groups: "А-08-19".to_string(),
        person: "Иванов И.И.".to_string(),
        time: ClassesTime { start, end },
        number: 1,
    }
}

fn day(d: Date, day_of_week: u8, cs: Vec<Classes>) -> Day {
    Day { day_of_week, date: d, classes: cs }
}

fn schedule(days: Vec<Day>) -> Schedule {
    Schedule {
        id: "1".to_string(),
        name: "А-08-19".to_string(),
        schedule_type: ScheduleType::Group,
        weeks: vec![Week { week_of_year: 10, week_of_semester: 3, first_day_of_week: date(2024, 3, 4), days }],
    }
}

fn peer(selected: &str, selecting: bool) -> Peer {
    Peer {
        id: 7,
        selected_schedule: selected.to_string(),
        selected_schedule_type: ScheduleType::Group,
        selecting_schedule: selecting,
    }
}

fn action(text: &str, weekday: u32) -> Result<UserAction, CommonError> {
    TextToActionUseCase.text_to_action_on(text, weekday)
}

#[test]
fn commands_are_recognised() {
    assert_eq!(action("/start", 1).unwrap(), UserAction::Start);
    assert_eq!(action("Старт", 1).unwrap(), UserAction::Start);
    assert_eq!(action("  Помощь ", 1).unwrap(), UserAction::Help);
    assert_eq!(action("Сменить группу", 1).unwrap(), UserAction::ChangeScheduleIntent);
    assert_eq!(action("ближайшие пары", 1).unwrap(), UserAction::UpcomingEvents);
    assert_eq!(action("/thisweek", 1).unwrap(), UserAction::WeekWithOffset(0));
    assert_eq!(action("Следующая неделя", 1).unwrap(), UserAction::WeekWithOffset(1));
}

#[test]
fn mentions_are_removed() {
    assert_eq!(action("[club123|@mpeix_bot], помощь", 1).unwrap(), UserAction::Help);
    assert_eq!(action("@mpeix_bot /start", 1).unwrap(), UserAction::Start);
}

#[test]
fn days_of_week_give_offsets_to_the_next_such_day() {
    // today is Wednesday
    assert_eq!(action("среда", 3).unwrap(), UserAction::DayWithOffset(0));
    assert_eq!(action("Пятница", 3).unwrap(), UserAction::DayWithOffset(2));
    assert_eq!(action("пн", 3).unwrap(), UserAction::DayWithOffset(5));
    assert_eq!(action("monday", 7).unwrap(), UserAction::DayWithOffset(1));
}

#[test]
fn relative_days_that_survive_lower_casing() {
    assert_eq!(action("/today", 2).unwrap(), UserAction::DayWithOffset(0));
    assert_eq!(action("/Tomorrow", 2).unwrap(), UserAction::DayWithOffset(1));
    assert_eq!(action("/yesterday", 2).unwrap(), UserAction::DayWithOffset(-1));
}

#[test]
fn capitalised_relative_days_are_unknown_after_lower_casing() {
    assert_eq!(action("Сегодня", 2).unwrap(), UserAction::Unknown("сегодня".to_string()));
    // "завтра" holds "вт", a day of the week, but names none exactly
    assert_eq!(action("Завтра", 2).unwrap_err().kind(), ErrorKind::Internal);
}

#[test]
fn text_matching_a_pattern_but_no_name_is_an_error() {
    let e = action("lemon", 2).unwrap_err();
    assert_eq!(e.kind(), ErrorKind::Internal);
    let e = action("пары в понедельник", 2).unwrap_err();
    assert_eq!(e.kind(), ErrorKind::Internal);
}

#[test]
fn other_text_is_unknown_and_lower_cased() {
    assert_eq!(action("А-08-19", 4).unwrap(), UserAction::Unknown("а-08-19".to_string()));
}

#[test]
fn start_for_a_new_peer_starts_choosing() {
    match handle_start(peer("", false)) {
        NextStep::SavePeerAndAnswer(p, Reply::StartGreetings) => {
            assert!(p.selecting_schedule);
            assert_eq!(p.id, 7);
        }
        other => panic!("unexpected {:?}", other),
    }
    match handle_start(peer("А-08-19", false)) {
        NextStep::Answer(Reply::AlreadyStarted { schedule_name }) => assert_eq!(schedule_name, "А-08-19"),
        other => panic!("unexpected {:?}", other),
    }
}

#[test]
fn unknown_text_searches_only_while_choosing() {
    match plan_reply(UserAction::Unknown("а-08".to_string()), peer("А-08-19", true), "А-08") {
        NextStep::Search(q) => assert_eq!(q, "а-08"),
        other => panic!("unexpected {:?}", other),
    }
    match plan_reply(UserAction::Unknown("привет".to_string()), peer("А-08-19", false), "Привет") {
        NextStep::Fail(CommonError::UserError(m)) => assert_eq!(m, "Unknown command: Привет"),
        other => panic!("unexpected {:?}", other),
    }
}

#[test]
fn plan_for_other_actions() {
    assert!(matches!(plan_reply(UserAction::Help, peer("x", false), "help"), NextStep::Answer(Reply::ShowHelp)));
    assert!(matches!(plan_reply(UserAction::WeekWithOffset(1), peer("x", false), ""), NextStep::FetchWeek(1)));
    assert!(matches!(plan_reply(UserAction::DayWithOffset(-2), peer("x", false), ""), NextStep::FetchDay(-2)));
    assert!(matches!(plan_reply(UserAction::UpcomingEvents, peer("x", false), ""), NextStep::FetchUpcomingEvents));
    match plan_reply(UserAction::ChangeScheduleIntent, peer("x", false), "") {
        NextStep::SavePeerAndAnswer(p, Reply::ReadyToChangeSchedule) => assert!(p.selecting_schedule),
        other => panic!("unexpected {:?}", other),
    }
}

#[test]
fn day_request_moves_by_days_and_counts_weeks() {
    // Friday 2024-03-08, week 10
    assert_eq!(day_request(date(2024, 3, 8), 3).unwrap(), (date(2024, 3, 11), 1));
    assert_eq!(day_request(date(2024, 3, 8), -3).unwrap(), (date(2024, 3, 5), 0));
    assert_eq!(day_request(date(2024, 12, 31), 1).unwrap(), (date(2025, 1, 1), 0));
    assert_eq!(day_request(date(2024, 1, 1), -1).unwrap(), (date(2023, 12, 31), 51));
}

#[test]
fn day_request_outside_the_calendar_fails() {
    let e = day_request(date(262142, 12, 31), 1).unwrap_err();
    assert_eq!(e.kind(), ErrorKind::User);
}

#[test]
fn week_reply_takes_the_first_week() {
    match week_reply(schedule(vec![]), 1).unwrap() {
        Reply::Week { week_offset, week, schedule_type } => {
            assert_eq!(week_offset, 1);
            assert_eq!(week.week_of_semester, 3);
            assert_eq!(schedule_type, ScheduleType::Group);
        }
        other => panic!("unexpected {:?}", other),
    }
    let empty = Schedule { id: String::new(), name: String::new(), schedule_type: ScheduleType::Group, weeks: vec![] };
    assert_eq!(week_reply(empty, 0).unwrap_err().kind(), ErrorKind::Internal);
}

#[test]
fn day_reply_finds_the_day_or_makes_an_empty_one() {
    let s = schedule(vec![day(date(2024, 3, 5), 2, vec![classes("Матан", hm(9, 20), hm(10, 55))])]);
    match day_reply(&s, date(2024, 3, 5), 0) {
        Reply::Day { day, .. } => assert_eq!(day.classes.len(), 1),
        other => panic!("unexpected {:?}", other),
    }
    match day_reply(&s, date(2024, 3, 10), 2) {
        Reply::Day { day_offset, day, .. } => {
            assert_eq!(day_offset, 2);
            assert_eq!(day.day_of_week, 7);
            assert!(day.classes.is_empty());
        }
        other => panic!("unexpected {:?}", other),
    }
}

fn result(name: &str, t: ScheduleType) -> ScheduleSearchResult {
    ScheduleSearchResult { name: name.to_string(), description: String::new(), id: "1".to_string(), schedule_type: t }
}

#[test]
fn search_switches_to_an_exact_match() {
    let results = vec![result("А-08-19", ScheduleType::Group), result("А-08-18", ScheduleType::Group)];
    match search_reply(peer("", true), "а-08-18", &results) {
        NextStep::SavePeerAndAnswer(p, Reply::ScheduleChangedSuccessfully(name)) => {
            assert_eq!(name, "А-08-18");
            assert_eq!(p.selected_schedule, "А-08-18");
            assert!(!p.selecting_schedule);
        }
        other => panic!("unexpected {:?}", other),
    }
}

#[test]
fn search_offers_the_first_three_results() {
    let results = vec![
        result("А-08-19", ScheduleType::Group),
        result("А-08-18", ScheduleType::Group),
        result("Адамов", ScheduleType::Person),
        result("А-08-17", ScheduleType::Group),
    ];
    match search_reply(peer("", true), "а-08", &results) {
        NextStep::Answer(Reply::ScheduleSearchResults { schedule_name, results, results_contains_person }) => {
            assert_eq!(schedule_name, "а-08");
            assert_eq!(results, vec!["А-08-19".to_string(), "А-08-18".to_string(), "Адамов".to_string()]);
            assert!(results_contains_person);
        }
        other => panic!("unexpected {:?}", other),
    }
    match search_reply(peer("", true), "zzz", &vec![]) {
        NextStep::Answer(Reply::CannotFindSchedule(q)) => assert_eq!(q, "zzz"),
        other => panic!("unexpected {:?}", other),
    }
}

#[test]
fn nothing_upcoming() {
    let days = vec![day(date(2024, 3, 5), 2, vec![classes("Матан", hm(9, 20), hm(10, 55))])];
    let p = predict_upcoming_events(&days, date(2024, 3, 5), hm(12, 0));
    assert!(matches!(p, UpcomingEventsPrediction::NoClassesNextWeek));
}

#[test]
fn classes_under_way_and_later_today() {
    let days = vec![day(
        date(2024, 3, 5),
        2,
        vec![
            classes("Матан", hm(9, 20), hm(10, 55)),
            classes("Физика", hm(11, 10), hm(12, 45)),
            classes("Химия", hm(13, 45), hm(15, 20)),
        ],
    )];
    match predict_upcoming_events(&days, date(2024, 3, 5), hm(11, 30)) {
        UpcomingEventsPrediction::ClassesTodayStarted { in_progress, future_classes } => {
            assert_eq!(in_progress.name, "Физика");
            let future = future_classes.unwrap();
            assert_eq!(future.len(), 1);
            assert_eq!(future[0].name, "Химия");
        }
        other => panic!("unexpected {:?}", other),
    }
    match predict_upcoming_events(&days, date(2024, 3, 5), hm(14, 0)) {
        UpcomingEventsPrediction::ClassesTodayStarted { future_classes, .. } => assert!(future_classes.is_none()),
        other => panic!("unexpected {:?}", other),
    }
}

#[test]
fn classes_later_today_with_the_wait() {
    let days = vec![day(date(2024, 3, 5), 2, vec![classes("Матан", hm(9, 20), hm(10, 55))])];
    match predict_upcoming_events(&days, date(2024, 3, 5), hm(8, 0)) {
        UpcomingEventsPrediction::ClassesTodayNotStarted { time_prediction, future_classes } => {
            assert_eq!(time_prediction, TimePrediction::WithinOneDay(TimeDelta { nanos: 80 * 60 * 1_000_000_000 }));
            assert_eq!(future_classes.len(), 1);
        }
        other => panic!("unexpected {:?}", other),
    }
}

#[test]
fn classes_on_a_later_day() {
    let days = vec![
        day(date(2024, 3, 5), 2, vec![classes("Матан", hm(9, 20), hm(10, 55))]),
        day(date(2024, 3, 7), 4, vec![classes("Физика", hm(11, 10), hm(12, 45))]),
    ];
    match predict_upcoming_events(&days, date(2024, 3, 5), hm(12, 0)) {
        UpcomingEventsPrediction::ClassesInNDays { time_prediction, future_classes } => {
            let expected = TimeDelta { nanos: (48 * 3600 - 50 * 60) as i128 * 1_000_000_000 };
            assert_eq!(time_prediction, TimePrediction::WithinAWeek { date: date(2024, 3, 7), duration: expected });
            assert_eq!(future_classes[0].name, "Физика");
        }
        other => panic!("unexpected {:?}", other),
    }
}

#[test]
fn upcoming_reply_reads_both_weeks() {
    let this_week = schedule(vec![day(date(2024, 3, 5), 2, vec![classes("Матан", hm(9, 20), hm(10, 55))])]);
    let next_week = schedule(vec![day(date(2024, 3, 12), 2, vec![classes("Физика", hm(9, 20), hm(10, 55))])]);
    match upcoming_events_reply(&this_week, &next_week, ScheduleType::Person, date(2024, 3, 6), hm(9, 0)) {
        Reply::UpcomingEvents { prediction: UpcomingEventsPrediction::ClassesInNDays { future_classes, .. }, schedule_type } => {
            assert_eq!(future_classes[0].name, "Физика");
            assert_eq!(schedule_type, ScheduleType::Person);
        }
        other => panic!("unexpected {:?}", other),
    }
}

#[test]
fn platform_names() {
    assert_eq!(PlatformId::Telegram(5).platform_and_id(), ("telegram", 5));
    assert_eq!(PlatformId::Vk(9).platform_and_id(), ("vk", 9));
}

#[test]
fn failures_are_answered_by_their_kind() {
    assert!(matches!(failure_reply(&CommonError::user("Unknown command: x")), Reply::UnknownCommand));
    assert!(matches!(failure_reply(&CommonError::gateway("down")), Reply::InternalError));
    assert!(matches!(failure_reply(&CommonError::internal("bug")), Reply::InternalError));
}
