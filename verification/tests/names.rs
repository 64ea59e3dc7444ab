use mpeix::models::ScheduleType;
use mpeix::names::{ScheduleName, ScheduleSearchQuery};
use mpeix::pattern::replace_all;

#[test]
fn test_valid_group_names() {
    assert!(ScheduleName::new("С-12-16".to_string(), ScheduleType::Group).is_ok());
    assert!(ScheduleName::new("Сэ-12-21".to_string(), ScheduleType::Group).is_ok());
    assert!(ScheduleName::new("А-08М-22".to_string(), ScheduleType::Group).is_ok());
}

#[test]
fn test_valid_person_names() {
    assert!(ScheduleName::new("Адамов Борис Игоревич".to_string(), ScheduleType::Person).is_ok());
    assert!(ScheduleName::new("Кули-Заде Турал Аладдинович".to_string(), ScheduleType::Person).is_ok());
    assert!(ScheduleName::new("Иванко Влада".to_string(), ScheduleType::Person).is_ok());
}

#[test]
fn test_valid_search_query() {
    assert!(ScheduleSearchQuery::new("abcdef".to_string()).is_ok());
    assert!(ScheduleSearchQuery::new("12345".to_string()).is_ok());
    assert!(ScheduleSearchQuery::new("Куликова".to_string()).is_ok());
}

#[test]
fn test_invalid_search_query() {
    assert!(ScheduleSearchQuery::new("К".to_string()).is_err());
    assert!(ScheduleSearchQuery::new("  К  ".to_string()).is_err());
    assert!(ScheduleSearchQuery::new(
        "123456789_123456789_123456789_123456789_123456789_1".to_string()
    )
    .is_err());
}

#[test]
fn group_name_is_uppercased_and_padded() {
    let name = ScheduleName::new("с-2-16".to_string(), ScheduleType::Group).unwrap();
    assert_eq!(name.as_str(), "С-02-16");
    let name = ScheduleName::new("а-08м-22".to_string(), ScheduleType::Group).unwrap();
    assert_eq!(name.as_str(), "А-08М-22");
}

#[test]
fn invalid_names_are_user_errors() {
    let err = ScheduleName::new("abc".to_string(), ScheduleType::Group).unwrap_err();
    assert_eq!(err.describe(), "User error: Invalid group name\n");
    let err = ScheduleName::new("Smith".to_string(), ScheduleType::Person).unwrap_err();
    assert_eq!(err.describe(), "User error: Invalid person name\n");
    let err = ScheduleName::new("Б-100".to_string(), ScheduleType::Room).unwrap_err();
    assert_eq!(err.describe(), "Internal error: Room name validation is not implemented yet\n");
}

#[test]
fn search_query_is_normalized() {
    let q = ScheduleSearchQuery::new("  Иванов   Иван \t Иванович ".to_string()).unwrap();
    assert_eq!(q.as_str(), "Иванов Иван Иванович");
}

#[test]
fn a_normalized_query_is_kept() {
    let q = ScheduleSearchQuery::new("  Иванов \t  Иван ".to_string()).unwrap();
    assert_eq!(q.as_str(), "Иванов Иван");
    let again = ScheduleSearchQuery::new(q.as_str().to_string()).unwrap();
    assert_eq!(again.as_str(), q.as_str());
}

#[test]
fn replacing_without_a_match_keeps_the_text() {
    assert_eq!(replace_all(r"\s+", "иванов", " ").as_deref(), Some("иванов"));
    assert_eq!(replace_all(r"\s+", "a  b", " ").as_deref(), Some("a b"));
    assert_eq!(replace_all(r"(", "a", " "), None);
}
