use mpeix::cache::{now, Instant};
use mpeix::calendar::TimeDelta;
use mpeix::cooldown::ScheduleCooldownRepository;

const NANOS_PER_SECOND: i128 = 1_000_000_000;

fn seconds(s: i128) -> TimeDelta {
    TimeDelta { nanos: s * NANOS_PER_SECOND }
}

fn seconds_ago(s: i128) -> Instant {
    Instant { nanos: now().nanos - s * NANOS_PER_SECOND }
}

#[test]
fn test_activate_and_check_active() {
    let mut repo = ScheduleCooldownRepository::default();
    repo.cooldown_duration = seconds(60);
    repo.activate();
    assert_eq!(true, repo.is_cooldown_active());
}

#[test]
fn test_cooldown_is_inactive_without_activating() {
    let mut repo = ScheduleCooldownRepository::default();
    repo.cooldown_duration = seconds(60);
    assert_eq!(false, repo.is_cooldown_active());
}

#[test]
fn test_activate_and_check_inactive() {
    let mut repo = ScheduleCooldownRepository::default();
    repo.cooldown_duration = seconds(60);
    // kinda activate now
    repo.last_error_time = Some(now());
    assert_eq!(true, repo.is_cooldown_active());

    // kinda activate half a minute ago
    repo.last_error_time = Some(seconds_ago(30));
    assert_eq!(true, repo.is_cooldown_active());

    // kinda activate minute ago
    repo.last_error_time = Some(seconds_ago(60));
    assert_eq!(false, repo.is_cooldown_active())
}

#[test]
fn default_cooldown_is_one_minute() {
    let repo = ScheduleCooldownRepository::default();
    assert_eq!(repo.cooldown_duration, seconds(60));
    assert_eq!(repo.last_error_time, None);
}

#[test]
fn cooldown_ends_exactly_after_its_duration() {
    let mut repo = ScheduleCooldownRepository::new(seconds(60));
    let start = Instant { nanos: 1_000 * NANOS_PER_SECOND };
    repo.activate_at(start);
    assert!(repo.is_cooldown_active_at(start));
    assert!(repo.is_cooldown_active_at(Instant { nanos: 1_059 * NANOS_PER_SECOND }));
    assert!(!repo.is_cooldown_active_at(Instant { nanos: 1_060 * NANOS_PER_SECOND }));
    assert!(!repo.is_cooldown_active_at(Instant { nanos: 2_000 * NANOS_PER_SECOND }));
}

#[test]
fn cooldown_whose_end_overflows_never_ends() {
    let mut repo = ScheduleCooldownRepository::new(TimeDelta { nanos: i128::MAX });
    repo.activate_at(Instant { nanos: 1 });
    assert!(repo.is_cooldown_active_at(Instant { nanos: i128::MAX }));
}

#[test]
fn cooldown_whose_end_leaves_the_calendar_never_ends() {
    // a negative duration that reaches before the first date: the end does not exist
    let mut repo = ScheduleCooldownRepository::new(TimeDelta { nanos: -9_000_000_000_000_000_000_000 });
    repo.activate_at(Instant { nanos: 0 });
    assert!(repo.is_cooldown_active_at(Instant { nanos: 1 }));
    // a negative duration that stays in the calendar has run out at once
    let mut repo = ScheduleCooldownRepository::new(TimeDelta { nanos: -1 });
    repo.activate_at(Instant { nanos: 0 });
    assert!(!repo.is_cooldown_active_at(Instant { nanos: 0 }));
}
