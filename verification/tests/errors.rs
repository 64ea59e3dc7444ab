use mpeix::errors::{get_address, AppScheduleError, CommonError, CommonErrorExt, HttpFailure, PersistentCache, ResultExt};
use mpeix::models::ParseScheduleTypeError;

#[test]
fn address_from_the_environment() {
    assert_eq!(get_address(None, None, true), ("127.0.0.1".to_string(), 8080));
    assert_eq!(get_address(None, None, false), ("0.0.0.0".to_string(), 8080));
    assert_eq!(get_address(Some("10.0.0.1"), Some("9000"), false), ("10.0.0.1".to_string(), 9000));
    assert_eq!(get_address(None, Some("+81"), false).1, 81);
    assert_eq!(get_address(None, Some("70000"), false).1, 8080);
    assert_eq!(get_address(None, Some("-1"), false).1, 8080);
    assert_eq!(get_address(None, Some("port"), false).1, 8080);
}

#[test]
fn cache_entry_paths() {
    let cache = PersistentCache::new("./cache".to_string());
    assert_eq!(cache.entry_path("group/a/2024-03-04"), "./cache/group/a/2024-03-04");
    assert_eq!(cache.entry_path("/tmp/x"), "/tmp/x");
    assert_eq!(PersistentCache::new("dir/".to_string()).entry_path("k"), "dir/k");
    assert_eq!(PersistentCache::new(String::new()).entry_path("k"), "k");
}

#[test]
fn api_errors_map_to_status_codes() {
    assert_eq!(AppScheduleError::from_common(CommonError::user("bad")).status_code(), 400);
    assert_eq!(AppScheduleError::from_common(CommonError::gateway("down")).status_code(), 502);
    assert_eq!(AppScheduleError::from_common(CommonError::internal("bug")).status_code(), 500);
    let other = AppScheduleError { common: None, description: "other".to_string() };
    assert_eq!(other.status_code(), 500);
    assert!(other.as_common_error().is_none());
}

#[test]
fn unknown_schedule_type_is_a_user_error() {
    let e = AppScheduleError::from_parse_error(&ParseScheduleTypeError("teacher".to_string()));
    assert_eq!(e.status_code(), 400);
    assert_eq!(e.description, "User error: Unknown schedule type: teacher\n");
}

#[test]
fn failed_requests_become_common_errors() {
    let decode: Result<(), HttpFailure> = Err(HttpFailure { is_decode: true, message: "bad json".to_string() });
    assert!(matches!(decode.with_common_error(), Err(CommonError::InternalError(m)) if m == "bad json"));
    let timeout: Result<(), HttpFailure> = Err(HttpFailure { is_decode: false, message: "timeout".to_string() });
    assert!(matches!(timeout.with_common_error(), Err(CommonError::GatewayError(m)) if m == "timeout"));
    let ok: Result<u8, HttpFailure> = Ok(3);
    assert!(matches!(ok.with_common_error(), Ok(3)));
}

#[test]
fn context_keeps_the_kind() {
    let e = CommonError::user("Invalid group name").with_context("Error while processing schedule change");
    match e {
        CommonError::UserError(m) => assert_eq!(m, "Error while processing schedule change: Invalid group name"),
        other => panic!("unexpected {:?}", other),
    }
    let e = CommonError::gateway("down").with_context("ctx");
    assert!(matches!(e, CommonError::GatewayError(m) if m == "ctx: down"));
}
