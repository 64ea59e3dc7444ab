use mpeix::calendar::Date;
use mpeix::mapping::WeekOfSemester;
use mpeix::shift::{shift_from_entries, week_of_semester, ScheduleShift, ShiftError, ShiftRule, ShiftedSemester, TomlValue, Year};

const DEFAULT_SHIFT: &str = r#"
[2021]
spring = { first-day = "2021-02-15", week-number = 0 }

[2023]
spring = { first-day = "2023-02-08", week-number = 0 }

[2025]
spring = { first-day = "2025-02-10", week-number = 1 }
"#;

fn date(year: i32, month: u32, day: u32) -> Date {
    Date { year, month, day }
}

#[test]
fn from_str_valid_test() {
    let shift = ScheduleShift::from_str(DEFAULT_SHIFT);
    assert!(shift.is_ok());
    let shift = shift.unwrap();
    assert_eq!(shift.len(), 3);
    assert_eq!(
        shift.get(Year::new(2021), ShiftedSemester::Spring),
        Some(&ShiftRule { first_day: date(2021, 2, 15), week_number: Some(0) })
    );
    assert_eq!(
        shift.get(Year::new(2023), ShiftedSemester::Spring),
        Some(&ShiftRule { first_day: date(2023, 2, 8), week_number: Some(0) })
    );
    assert_eq!(
        shift.get(Year::new(2025), ShiftedSemester::Spring),
        Some(&ShiftRule { first_day: date(2025, 2, 10), week_number: Some(1) })
    );
}

#[test]
fn from_str_invalid_year_test() {
    let toml_content = r#"
        [2022]
        fall = { first-day = "2021-09-16" }
        "#;
    let shift = ScheduleShift::from_str(toml_content);
    assert!(shift.is_err());
}

#[test]
fn from_str_invalid_first_day_test() {
    let toml_content = r#"
        [2022]
        fall = { week-number = 0 }
        "#;
    let shift = ScheduleShift::from_str(toml_content);
    assert!(shift.is_err());
}

#[test]
fn absent_semesters_have_no_rule() {
    let shift = ScheduleShift::from_str(DEFAULT_SHIFT).unwrap();
    assert_eq!(shift.get(Year::new(2021), ShiftedSemester::Fall), None);
    assert_eq!(shift.get(Year::new(2022), ShiftedSemester::Spring), None);
}

#[test]
fn wrong_year_names_the_rule() {
    let text = "[2022]\nfall = { first-day = \"2021-09-16\" }\n";
    match ScheduleShift::from_str(text) {
        Err(ShiftError::WrongYear { year, semester, first_day }) => {
            assert_eq!(year, 2022);
            assert_eq!(semester, ShiftedSemester::Fall);
            assert_eq!(first_day, date(2021, 9, 16));
        }
        other => panic!("unexpected {:?}", other),
    }
}

#[test]
fn missing_first_day_names_the_semester() {
    let text = "[2022]\nspring = { week-number = 3 }\n";
    match ScheduleShift::from_str(text) {
        Err(ShiftError::MissingFirstDay { year, semester }) => {
            assert_eq!(year, 2022);
            assert_eq!(semester, ShiftedSemester::Spring);
        }
        other => panic!("unexpected {:?}", other),
    }
}

#[test]
fn malformed_date_counts_as_missing() {
    let text = "[2022]\nspring = { first-day = \"15.02.2022\" }\n";
    assert!(matches!(ScheduleShift::from_str(text), Err(ShiftError::MissingFirstDay { .. })));
}

#[test]
fn key_that_is_no_year_is_refused() {
    let text = "[spring]\nfall = { first-day = \"2021-09-16\" }\n";
    match ScheduleShift::from_str(text) {
        Err(ShiftError::InvalidYear(key)) => assert_eq!(key, "spring"),
        other => panic!("unexpected {:?}", other),
    }
}

#[test]
fn text_that_is_no_toml_is_refused() {
    assert!(matches!(ScheduleShift::from_str("[2021"), Err(ShiftError::InvalidToml)));
}

#[test]
fn empty_document_has_no_rules() {
    let shift = ScheduleShift::from_str("").unwrap();
    assert_eq!(shift.len(), 0);
}

#[test]
fn week_number_keeps_its_lowest_byte() {
    let text = "[2024]\nfall = { first-day = \"2024-09-02\", week-number = 300 }\n";
    let shift = ScheduleShift::from_str(text).unwrap();
    assert_eq!(
        shift.get(Year::new(2024), ShiftedSemester::Fall),
        Some(&ShiftRule { first_day: date(2024, 9, 2), week_number: Some(44) })
    );
}

#[test]
fn both_semesters_of_a_year() {
    let text = "[2024]\nspring = { first-day = \"2024-02-05\" }\nfall = { first-day = \"2024-09-02\", week-number = 2 }\n";
    let shift = ScheduleShift::from_str(text).unwrap();
    assert_eq!(shift.len(), 2);
    assert_eq!(
        shift.get(Year::new(2024), ShiftedSemester::Spring),
        Some(&ShiftRule { first_day: date(2024, 2, 5), week_number: None })
    );
}

#[test]
fn insert_replaces_a_rule() {
    let mut shift = ScheduleShift::empty();
    let first = ShiftRule { first_day: date(2024, 9, 2), week_number: Some(1) };
    let second = ShiftRule { first_day: date(2024, 9, 9), week_number: None };
    shift.insert(2024, ShiftedSemester::Fall, first);
    shift.insert(2024, ShiftedSemester::Fall, second);
    assert_eq!(shift.len(), 1);
    assert_eq!(shift.get(Year::new(2024), ShiftedSemester::Fall), Some(&second));
}

#[test]
fn semester_names() {
    assert_eq!(ShiftedSemester::Spring.as_str(), "spring");
    assert_eq!(ShiftedSemester::Fall.as_str(), "fall");
}

#[test]
fn weeks_are_counted_from_the_week_of_the_first_day() {
    let shift = ScheduleShift::from_str(DEFAULT_SHIFT).unwrap();
    // 2023-02-08 is a Wednesday: its week starts on 2023-02-06 and is numbered 0
    assert_eq!(week_of_semester(date(2023, 2, 6), &shift), WeekOfSemester::Studying(0));
    assert_eq!(week_of_semester(date(2023, 3, 6), &shift), WeekOfSemester::Studying(4));
    assert_eq!(week_of_semester(date(2025, 2, 10), &shift), WeekOfSemester::Studying(1));
    assert_eq!(week_of_semester(date(2025, 6, 2), &shift), WeekOfSemester::Studying(17));
}

#[test]
fn weeks_outside_a_numbered_semester() {
    let shift = ScheduleShift::from_str(DEFAULT_SHIFT).unwrap();
    // before the first week, after the seventeenth, and in semesters without a rule
    assert_eq!(week_of_semester(date(2025, 2, 3), &shift), WeekOfSemester::NonStudying);
    assert_eq!(week_of_semester(date(2025, 6, 9), &shift), WeekOfSemester::NonStudying);
    assert_eq!(week_of_semester(date(2023, 9, 4), &shift), WeekOfSemester::NonStudying);
    assert_eq!(week_of_semester(date(2024, 1, 8), &shift), WeekOfSemester::NonStudying);
}

#[test]
fn january_belongs_to_the_fall_semester_before() {
    let shift = ScheduleShift::from_str("[2023]\nfall = { first-day = \"2023-10-02\" }\n").unwrap();
    assert_eq!(week_of_semester(date(2023, 10, 2), &shift), WeekOfSemester::Studying(1));
    // fourteen weeks after 2023-10-02, counted in the fall semester of 2023
    assert_eq!(week_of_semester(date(2024, 1, 8), &shift), WeekOfSemester::Studying(15));
    // February starts the spring semester, which has no rule
    assert_eq!(week_of_semester(date(2024, 2, 5), &shift), WeekOfSemester::NonStudying);
}

fn table(entries: Vec<(&str, TomlValue)>) -> TomlValue {
    TomlValue::Table(entries.into_iter().map(|(k, v)| (k.to_string(), v)).collect())
}

#[test]
fn shifts_from_parsed_entries() {
    let fall = table(vec![("first-day", TomlValue::Text("2022-09-01".to_string())), ("week-number", TomlValue::Integer(2))]);
    let shift = shift_from_entries(vec![("2022".to_string(), table(vec![("fall", fall)]))]).unwrap();
    assert_eq!(shift.len(), 1);
    assert_eq!(
        shift.get(Year::new(2022), ShiftedSemester::Fall),
        Some(&ShiftRule { first_day: date(2022, 9, 1), week_number: Some(2) })
    );
    assert_eq!(shift.get(Year::new(2022), ShiftedSemester::Spring), None);
    // the first refusal wins: a key that is no year
    let refused = shift_from_entries(vec![("next".to_string(), table(vec![])), ("2022x".to_string(), table(vec![]))]);
    assert!(matches!(refused, Err(ShiftError::InvalidYear(k)) if k == "next"));
    // a section without its first day
    let missing = table(vec![("spring", table(vec![("week-number", TomlValue::Integer(0))]))]);
    assert!(matches!(shift_from_entries(vec![("2022".to_string(), missing)]), Err(ShiftError::MissingFirstDay { year: 2022, .. })));
}
