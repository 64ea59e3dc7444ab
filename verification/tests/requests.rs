use mpeix::api::{format_mpei_date, mpei_schedule_request, mpei_search_request, schedule_service_request, search_service_request};
use mpeix::calendar::Date;
use mpeix::models::ScheduleType;

#[test]
fn university_dates() {
    assert_eq!(format_mpei_date(&Date { year: 2024, month: 3, day: 5 }), "2024.03.05");
    assert_eq!(format_mpei_date(&Date { year: 2024, month: 12, day: 31 }), "2024.12.31");
}

#[test]
fn university_requests() {
    let r = mpei_search_request("А-08-19", ScheduleType::Group);
    assert_eq!(r.url, "http://ts.mpei.ru/api/search");
    assert_eq!((r.query[0].key.as_str(), r.query[0].value.as_str()), ("term", "А-08-19"));
    assert_eq!((r.query[1].key.as_str(), r.query[1].value.as_str()), ("type", "group"));
    let r = mpei_schedule_request(ScheduleType::Person, 77, &Date { year: 2024, month: 3, day: 4 }, &Date { year: 2024, month: 3, day: 10 });
    assert_eq!(r.url, "http://ts.mpei.ru/api/schedule/person/77");
    assert_eq!(r.query[0].value, "2024.03.04");
    assert_eq!(r.query[1].value, "2024.03.10");
    assert_eq!(r.query[2].value, "1");
}

#[test]
fn schedule_service_requests() {
    let r = schedule_service_request("http://schedule:8080", ScheduleType::Group, "А-08-19", -1);
    assert_eq!(r.url, "http://schedule:8080/v1/group/А-08-19/schedule/-1");
    assert!(r.query.is_empty());
    let r = search_service_request("http://schedule:8080", "иван", None);
    assert_eq!(r.url, "http://schedule:8080/v1/search");
    assert_eq!(r.query.len(), 1);
    let r = search_service_request("http://s", "иван", Some(ScheduleType::Person));
    assert_eq!(r.query[1].value, "person");
}

#[test]
fn telegram_requests() {
    let api = mpeix::telegram::TelegramApi::new("123:abc");
    let r = api.delete_message(42, 7);
    assert!(r.url.ends_with("/deleteMessage"));
    assert_eq!(r.query.len(), 2);
    assert_eq!((r.query[0].key.as_str(), r.query[0].value.as_str()), ("chat_id", "42"));
    assert_eq!((r.query[1].key.as_str(), r.query[1].value.as_str()), ("message_id", "7"));
}

#[test]
fn schedule_type_names() {
    assert_eq!(ScheduleType::Group.to_name(), "group");
    assert_eq!(ScheduleType::Person.to_name(), "person");
    assert_eq!(ScheduleType::Room.to_name(), "room");
}

#[test]
fn times_from_hours_and_minutes() {
    let t = mpeix::calendar::Time::from_hm(9, 20).unwrap();
    assert_eq!((t.hour(), t.minute()), (9, 20));
    assert!(mpeix::calendar::Time::from_hm(24, 0).is_none());
    assert!(mpeix::calendar::Time::from_hm(23, 60).is_none());
}
