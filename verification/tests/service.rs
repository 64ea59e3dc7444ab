use mpeix::calendar::Date;
use mpeix::errors::{CommonError, ErrorKind};
use mpeix::mapping::{MpeiSearchResult, WeekOfSemester};
use mpeix::models::{Schedule, ScheduleSearchResult, ScheduleType, Week};
use mpeix::service::{
    expiration_ignored, after_remote, check_offset, combine_search_results, fix_week_of_semester, fuzzy_equals, rank_search_results,
    schedule_id_from_search, schedule_type_from_db, search_results_values, week_start_of, SearchResponse,
};

fn result(name: &str, t: ScheduleType) -> ScheduleSearchResult {
    ScheduleSearchResult { name: name.to_string(), description: "ИВТИ".to_string(), id: "42".to_string(), schedule_type: t }
}

fn names(v: &[ScheduleSearchResult]) -> Vec<String> {
    v.iter().map(|r| r.name.clone()).collect()
}

#[test]
fn ranking_puts_earlier_matches_first_and_keeps_ties() {
    let results = vec![
        result("Иванов Петр", ScheduleType::Person),
        result("Петров Иван", ScheduleType::Person),
        result("Петрова Анна", ScheduleType::Person),
        result("Сидоров", ScheduleType::Person),
    ];
    let ranked = rank_search_results(&results, "петр");
    assert_eq!(names(&ranked), vec!["Петров Иван", "Петрова Анна", "Сидоров", "Иванов Петр"]);
}

#[test]
fn absent_query_ranks_at_the_number_of_results() {
    // "ab" is at byte 3 of "xyzab" but the two results rank absent ones at offset 2
    let results = vec![result("xyzab", ScheduleType::Group), result("none", ScheduleType::Group)];
    let ranked = rank_search_results(&results, "ab");
    assert_eq!(names(&ranked), vec!["none", "xyzab"]);
}

#[test]
fn ranking_uses_byte_offsets() {
    // "а" (two bytes) comes before "b" in "аb"; "xb" has "b" at byte 1
    let results = vec![result("аb", ScheduleType::Group), result("xb", ScheduleType::Group)];
    let ranked = rank_search_results(&results, "b");
    assert_eq!(names(&ranked), vec!["xb", "аb"]);
}

#[test]
fn combining_keeps_groups_then_persons() {
    let all = combine_search_results(Some(vec![result("А", ScheduleType::Group)]), Some(vec![result("Б", ScheduleType::Person)]));
    assert_eq!(names(&all), vec!["А", "Б"]);
    let only_persons = combine_search_results(None, Some(vec![result("Б", ScheduleType::Person)]));
    assert_eq!(names(&only_persons), vec!["Б"]);
}

#[test]
fn offsets_are_bounded() {
    assert!(check_offset(0).is_ok());
    assert!(check_offset(306783377).is_ok());
    assert!(check_offset(-306783377).is_ok());
    match check_offset(306783378) {
        Err(CommonError::UserError(m)) => assert_eq!(m, "Too large offset"),
        other => panic!("unexpected {:?}", other),
    }
    match check_offset(-306783378) {
        Err(CommonError::UserError(m)) => assert_eq!(m, "Too small offset"),
        other => panic!("unexpected {:?}", other),
    }
}

#[test]
fn week_start_is_the_monday() {
    let wednesday = Date { year: 2024, month: 3, day: 6 };
    assert_eq!(week_start_of(wednesday, 0), Some(Date { year: 2024, month: 3, day: 4 }));
    assert_eq!(week_start_of(wednesday, 1), Some(Date { year: 2024, month: 3, day: 11 }));
    assert_eq!(week_start_of(wednesday, -1), Some(Date { year: 2024, month: 2, day: 26 }));
    let sunday = Date { year: 2024, month: 3, day: 10 };
    assert_eq!(week_start_of(sunday, 0), Some(Date { year: 2024, month: 3, day: 4 }));
}

#[test]
fn week_start_outside_the_calendar() {
    assert_eq!(week_start_of(Date { year: 262142, month: 12, day: 26 }, 1), None);
}

fn schedule(week_of_semester: i8, weeks: usize) -> Schedule {
    let mut v = Vec::new();
    for _ in 0..weeks {
        v.push(Week { week_of_year: 10, week_of_semester, first_day_of_week: Date { year: 2024, month: 3, day: 4 }, days: vec![] });
    }
    Schedule { id: "1".to_string(), name: "А-08-19".to_string(), schedule_type: ScheduleType::Group, weeks: v }
}

#[test]
fn week_of_semester_is_fixed_when_it_differs() {
    let mut s = schedule(3, 1);
    assert_eq!(fix_week_of_semester(&mut s, WeekOfSemester::Studying(4)).unwrap(), true);
    assert_eq!(s.weeks[0].week_of_semester, 4);
    assert_eq!(fix_week_of_semester(&mut s, WeekOfSemester::Studying(4)).unwrap(), false);
    assert_eq!(fix_week_of_semester(&mut s, WeekOfSemester::NonStudying).unwrap(), true);
    assert_eq!(s.weeks[0].week_of_semester, -1);
    let mut empty = schedule(3, 0);
    assert_eq!(fix_week_of_semester(&mut empty, WeekOfSemester::Studying(1)).unwrap_err().kind(), ErrorKind::Internal);
}

#[test]
fn after_a_request_to_the_server() {
    let ok = after_remote(None, false);
    assert!(ok.store_in_cache && !ok.activate_cooldown && !ok.retry_cache_ignoring_expiration);
    let gateway = after_remote(Some(ErrorKind::Gateway), false);
    assert!(gateway.activate_cooldown && gateway.retry_cache_ignoring_expiration && !gateway.store_in_cache);
    let user = after_remote(Some(ErrorKind::User), true);
    assert!(!user.activate_cooldown && !user.retry_cache_ignoring_expiration && !user.store_in_cache);
}

#[test]
fn names_compare_up_to_spaces_and_case() {
    assert_eq!(fuzzy_equals("Иванов  Иван", "иванов иван"), Some(true));
    assert_eq!(fuzzy_equals("А-08-19", "А-08-18"), Some(false));
}

fn mpei(id: i64, label: &str) -> MpeiSearchResult {
    MpeiSearchResult { id, label: label.to_string(), description: String::new(), result_type: "group".to_string() }
}

#[test]
fn schedule_id_from_the_first_result() {
    let r = mpei(1234, "А-08-19");
    assert_eq!(schedule_id_from_search(Some(&r), "а-08-19", ScheduleType::Group).unwrap(), 1234);
    match schedule_id_from_search(Some(&r), "А-08-18", ScheduleType::Group) {
        Err(CommonError::UserError(m)) => assert_eq!(m, "Schedule with type 'Group' and name 'А-08-18' not found"),
        other => panic!("unexpected {:?}", other),
    }
    assert!(schedule_id_from_search(None, "Иванов", ScheduleType::Person).is_err());
}

#[test]
fn schedule_types_in_the_database() {
    assert_eq!(schedule_type_from_db("person").unwrap(), ScheduleType::Person);
    match schedule_type_from_db("teacher") {
        Err(CommonError::InternalError(m)) => assert_eq!(m, "Database contains invalid schedule type value: 'teacher'"),
        other => panic!("unexpected {:?}", other),
    }
}

#[test]
fn values_of_an_upsert() {
    let v = vec![result("А-08-19", ScheduleType::Group), result("Иванов", ScheduleType::Person)];
    assert_eq!(
        search_results_values(&v),
        "('42', 'А-08-19', 'ИВТИ', 'group'),\n('42', 'Иванов', 'ИВТИ', 'person')"
    );
    assert_eq!(search_results_values(&vec![]), "");
}

#[test]
fn search_response_items() {
    let r = SearchResponse { items: vec![result("А", ScheduleType::Group)] };
    assert_eq!(names(&r.items()), vec!["А"]);
}

#[test]
fn past_weeks_ignore_expiration() {
    let this_week = Date { year: 2024, month: 3, day: 4 };
    assert!(expiration_ignored(Date { year: 2024, month: 2, day: 26 }, this_week, false));
    assert!(!expiration_ignored(this_week, this_week, false));
    assert!(!expiration_ignored(Date { year: 2024, month: 3, day: 11 }, this_week, false));
    assert!(expiration_ignored(Date { year: 2024, month: 3, day: 11 }, this_week, true));
}
