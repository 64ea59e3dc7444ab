use mpeix::calendar::Date;
use mpeix::errors::{CommonError, ErrorKind};
use mpeix::mapping::WeekOfSemester;
use mpeix::models::{Schedule, ScheduleSearchResult, ScheduleType, Week};
use mpeix::service::{
    fetch_can_start, schedule_fetch_step, schedule_search_step, FetchAction, FetchEvent, ScheduleFetch, ScheduleSearch, SearchAction,
    SearchEvent,
};

fn wednesday() -> Date {
    Date { year: 2024, month: 3, day: 6 }
}

fn start(name: &str, offset: i32) -> ScheduleFetch {
    ScheduleFetch::Start { name: name.to_string(), schedule_type: ScheduleType::Group, offset, today: wednesday() }
}

fn schedule(week_of_semester: i8) -> Schedule {
    let week = Week { week_of_year: 10, week_of_semester, first_day_of_week: Date { year: 2024, month: 3, day: 11 }, days: vec![] };
    Schedule { id: "1".to_string(), name: "А-08-19".to_string(), schedule_type: ScheduleType::Group, weeks: vec![week] }
}

/// Drives a request up to the cache read of next week, with the cooldown as given.
fn up_to_cache(cooldown: bool) -> (ScheduleFetch, FetchAction) {
    let (state, action) = schedule_fetch_step(start("а-8-19", 1), FetchEvent::Begin);
    match action {
        FetchAction::LoadWeekOfSemester(d) => assert_eq!(d, Date { year: 2024, month: 3, day: 11 }),
        other => panic!("unexpected {:?}", other),
    }
    let (state, action) = schedule_fetch_step(state, FetchEvent::WeekOfSemester(WeekOfSemester::Studying(5)));
    assert!(matches!(action, FetchAction::ReadCooldown));
    schedule_fetch_step(state, FetchEvent::Cooldown(cooldown))
}

#[test]
fn a_request_reads_the_cache_for_its_week() {
    let (_, action) = up_to_cache(false);
    match action {
        FetchAction::ReadCache { name, schedule_type, week_start, ignore_expiration, activate_cooldown } => {
            assert_eq!(name.as_string(), "А-08-19");
            assert_eq!(schedule_type, ScheduleType::Group);
            assert_eq!(week_start, Date { year: 2024, month: 3, day: 11 });
            assert!(!ignore_expiration);
            assert!(!activate_cooldown);
        },
        other => panic!("unexpected {:?}", other),
    }
}

#[test]
fn the_cooldown_ignores_expiration() {
    let (_, action) = up_to_cache(true);
    assert!(matches!(action, FetchAction::ReadCache { ignore_expiration: true, .. }));
}

#[test]
fn a_cache_hit_is_served_with_the_current_week_of_semester() {
    let (state, _) = up_to_cache(false);
    let (state, action) = schedule_fetch_step(state, FetchEvent::Cached(Some(schedule(5))));
    assert!(matches!(state, ScheduleFetch::Finished));
    match action {
        FetchAction::Return(s) => assert_eq!(s.weeks[0].week_of_semester, 5),
        other => panic!("unexpected {:?}", other),
    }
    let (state, _) = up_to_cache(false);
    let (_, action) = schedule_fetch_step(state, FetchEvent::Cached(Some(schedule(4))));
    match action {
        FetchAction::StoreAndReturn { schedule, week_start, .. } => {
            assert_eq!(schedule.weeks[0].week_of_semester, 5);
            assert_eq!(week_start, Date { year: 2024, month: 3, day: 11 });
        },
        other => panic!("unexpected {:?}", other),
    }
}

#[test]
fn a_miss_asks_the_server_and_stores_its_answer() {
    let (state, _) = up_to_cache(false);
    let (state, action) = schedule_fetch_step(state, FetchEvent::Cached(None));
    match action {
        FetchAction::FetchRemote { week_of_semester, week_start, .. } => {
            assert_eq!(week_of_semester, WeekOfSemester::Studying(5));
            assert_eq!(week_start, Date { year: 2024, month: 3, day: 11 });
        },
        other => panic!("unexpected {:?}", other),
    }
    let (state, action) = schedule_fetch_step(state, FetchEvent::Fetched(Ok(schedule(5))));
    assert!(matches!(state, ScheduleFetch::Finished));
    match action {
        FetchAction::StoreAndReturn { schedule, name, .. } => {
            assert_eq!(schedule.name, "А-08-19");
            assert_eq!(name.as_string(), "А-08-19");
        },
        other => panic!("unexpected {:?}", other),
    }
}

#[test]
fn a_gateway_failure_starts_the_cooldown_and_falls_back_to_the_cache() {
    let (state, _) = up_to_cache(false);
    let (state, _) = schedule_fetch_step(state, FetchEvent::Cached(None));
    let (state, action) = schedule_fetch_step(state, FetchEvent::Fetched(Err(CommonError::GatewayError("down".to_string()))));
    assert!(matches!(action, FetchAction::ReadCache { ignore_expiration: true, activate_cooldown: true, .. }));
    let (state, action) = schedule_fetch_step(state, FetchEvent::Cached(None));
    assert!(matches!(state, ScheduleFetch::Finished));
    match action {
        FetchAction::Fail { error, activate_cooldown } => {
            assert_eq!(error.kind(), ErrorKind::Gateway);
            assert!(!activate_cooldown);
        },
        other => panic!("unexpected {:?}", other),
    }
}

#[test]
fn a_user_error_reads_the_cache_once_more_without_the_cooldown() {
    let (state, _) = up_to_cache(false);
    let (state, _) = schedule_fetch_step(state, FetchEvent::Cached(None));
    let (state, action) = schedule_fetch_step(state, FetchEvent::Fetched(Err(CommonError::UserError("no".to_string()))));
    assert!(matches!(action, FetchAction::ReadCache { ignore_expiration: true, activate_cooldown: false, .. }));
    let (_, action) = schedule_fetch_step(state, FetchEvent::Cached(Some(schedule(5))));
    assert!(matches!(action, FetchAction::Return(_)));
}

#[test]
fn a_failure_after_an_expired_read_is_reported_at_once() {
    let (state, _) = up_to_cache(true);
    let (state, _) = schedule_fetch_step(state, FetchEvent::Cached(None));
    let (state, action) = schedule_fetch_step(state, FetchEvent::Fetched(Err(CommonError::GatewayError("down".to_string()))));
    assert!(matches!(state, ScheduleFetch::Finished));
    assert!(matches!(action, FetchAction::Fail { activate_cooldown: true, .. }));
}

#[test]
fn requests_are_checked_first() {
    let (_, action) = schedule_fetch_step(start("А-08-19", 306783378), FetchEvent::Begin);
    match action {
        FetchAction::Fail { error: CommonError::UserError(m), .. } => assert_eq!(m, "Too large offset"),
        other => panic!("unexpected {:?}", other),
    }
    let (_, action) = schedule_fetch_step(start("12", 0), FetchEvent::Begin);
    match action {
        FetchAction::Fail { error: CommonError::UserError(m), .. } => assert_eq!(m, "Invalid group name"),
        other => panic!("unexpected {:?}", other),
    }
}

#[test]
fn an_unexpected_event_is_an_internal_error() {
    let (_, action) = schedule_fetch_step(ScheduleFetch::Finished, FetchEvent::Begin);
    match action {
        FetchAction::Fail { error: CommonError::InternalError(m), .. } => assert_eq!(m, "Unexpected event while serving a schedule"),
        other => panic!("unexpected {:?}", other),
    }
}

#[test]
fn requests_within_the_calendar_can_start() {
    assert!(fetch_can_start(wednesday(), 0));
    assert!(fetch_can_start(wednesday(), 306783378));
    // the first day of the calendar is a Thursday: its Monday lies outside
    assert!(!fetch_can_start(Date { year: -262143, month: 1, day: 1 }, 0));
    assert!(fetch_can_start(Date { year: -262143, month: 1, day: 5 }, 0));
}

fn found(name: &str, t: ScheduleType) -> ScheduleSearchResult {
    ScheduleSearchResult { name: name.to_string(), description: String::new(), id: "7".to_string(), schedule_type: t }
}

fn search_start(query: &str, schedule_type: Option<ScheduleType>) -> ScheduleSearch {
    ScheduleSearch::Start { query: query.to_string(), schedule_type }
}

#[test]
fn a_search_checks_its_query_then_reads_the_cache() {
    let (_, action) = schedule_search_step(search_start("а", None), SearchEvent::Begin);
    match action {
        SearchAction::Fail(CommonError::UserError(m)) => assert_eq!(m, "The search query must be 2 characters or more"),
        other => panic!("unexpected {:?}", other),
    }
    let (state, action) = schedule_search_step(search_start("  иванов   иван ", Some(ScheduleType::Person)), SearchEvent::Begin);
    match action {
        SearchAction::ReadCache { query, schedule_type } => {
            assert_eq!(query.as_str(), "иванов иван");
            assert_eq!(schedule_type, Some(ScheduleType::Person));
        },
        other => panic!("unexpected {:?}", other),
    }
    let (state, action) = schedule_search_step(state, SearchEvent::Cached(Some(vec![found("Иванов Иван", ScheduleType::Person)])));
    assert!(matches!(state, ScheduleSearch::Finished));
    match action {
        SearchAction::Return(v) => assert_eq!(v[0].name, "Иванов Иван"),
        other => panic!("unexpected {:?}", other),
    }
}

#[test]
fn a_search_over_all_types_asks_for_groups_then_persons() {
    let (state, _) = schedule_search_step(search_start("петр", None), SearchEvent::Begin);
    let (state, action) = schedule_search_step(state, SearchEvent::Cached(None));
    assert!(matches!(action, SearchAction::SearchRemote { schedule_type: ScheduleType::Group, .. }));
    let (state, action) = schedule_search_step(state, SearchEvent::Found(Err(CommonError::GatewayError("down".to_string()))));
    assert!(matches!(action, SearchAction::SearchRemote { schedule_type: ScheduleType::Person, .. }));
    let (state, action) = schedule_search_step(state, SearchEvent::Found(Ok(vec![found("Петров", ScheduleType::Person)])));
    match action {
        SearchAction::StoreResults(v) => assert_eq!(v.len(), 1),
        other => panic!("unexpected {:?}", other),
    }
    let (state, action) = schedule_search_step(state, SearchEvent::Stored(Ok(())));
    assert!(matches!(action, SearchAction::ReadDatabase { schedule_type: None, .. }));
    let loaded = vec![found("Иванов Петр", ScheduleType::Person), found("Петров", ScheduleType::Person)];
    let (state, action) = schedule_search_step(state, SearchEvent::Loaded(Ok(loaded)));
    assert!(matches!(state, ScheduleSearch::Finished));
    match action {
        SearchAction::CacheAndReturn { query, schedule_type, results } => {
            assert_eq!(query.as_str(), "петр");
            assert_eq!(schedule_type, None);
            let names: Vec<&str> = results.iter().map(|r| r.name.as_str()).collect();
            assert_eq!(names, vec!["Петров", "Иванов Петр"]);
        },
        other => panic!("unexpected {:?}", other),
    }
}

#[test]
fn nothing_found_goes_straight_to_the_database() {
    let (state, _) = schedule_search_step(search_start("А-08", Some(ScheduleType::Group)), SearchEvent::Begin);
    let (state, action) = schedule_search_step(state, SearchEvent::Cached(None));
    assert!(matches!(action, SearchAction::SearchRemote { schedule_type: ScheduleType::Group, .. }));
    let (_, action) = schedule_search_step(state, SearchEvent::Found(Ok(vec![])));
    assert!(matches!(action, SearchAction::ReadDatabase { schedule_type: Some(ScheduleType::Group), .. }));
}

#[test]
fn a_database_failure_fails_the_search() {
    let (state, _) = schedule_search_step(search_start("А-08", Some(ScheduleType::Group)), SearchEvent::Begin);
    let (state, _) = schedule_search_step(state, SearchEvent::Cached(None));
    let (state, _) = schedule_search_step(state, SearchEvent::Found(Ok(vec![found("А-08-19", ScheduleType::Group)])));
    let (state, action) = schedule_search_step(state, SearchEvent::Stored(Err(CommonError::InternalError("db".to_string()))));
    assert!(matches!(state, ScheduleSearch::Finished));
    assert!(matches!(action, SearchAction::Fail(CommonError::InternalError(_))));
    let (_, action) = schedule_search_step(ScheduleSearch::Finished, SearchEvent::Begin);
    match action {
        SearchAction::Fail(CommonError::InternalError(m)) => assert_eq!(m, "Unexpected event while searching"),
        other => panic!("unexpected {:?}", other),
    }
}
