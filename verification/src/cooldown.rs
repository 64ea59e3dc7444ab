//! "Cooldown" after errors of the university's server: for a while after an error the
//! server is not asked again, and cached schedules are served whatever their age.
use vstd::prelude::*;
use crate::cache::{Instant, now, end_exists, FIRST_INSTANT_NANOS, LAST_INSTANT_NANOS};
use crate::calendar::TimeDelta;

verus! {

/// Nanoseconds in a minute.
pub const NANOS_PER_MINUTE: i128 = 60_000_000_000;

/// Counts the time during which the server that returned an error is not asked again.
pub struct ScheduleCooldownRepository {
    pub cooldown_duration: TimeDelta,
    pub last_error_time: Option<Instant>,
}

/// The cooldown that started at `start` has run out at `at`: `start + duration` is at most
/// `at`; a sum beyond the range of dates and times never runs out.
pub open spec fn run_out_spec(start: Instant, duration: TimeDelta, at: Instant) -> bool {
    end_exists(start, duration) && start.nanos + duration.nanos <= at.nanos
}

impl ScheduleCooldownRepository {
    /// The cooldown is active at `at`: an error was recorded and its cooldown has not yet run out.
    pub open spec fn active_at(self, at: Instant) -> bool {
        match self.last_error_time {
            Some(start) => !run_out_spec(start, self.cooldown_duration, at),
            None => false,
        }
    }

    /// Whether the cooldown that started at `start` has run out at `at`.
    fn is_expired(&self, start: Instant, at: Instant) -> (r: bool)
        ensures
            r == run_out_spec(start, self.cooldown_duration, at),
    {
        match start.nanos.checked_add(self.cooldown_duration.nanos) {
            Some(end) => FIRST_INSTANT_NANOS <= end && end <= LAST_INSTANT_NANOS && end <= at.nanos,
            None => false,
        }
    }

    /// A repository with the given cooldown that has recorded no error.
    pub fn new(cooldown_duration: TimeDelta) -> (r: ScheduleCooldownRepository)
        ensures
            r.cooldown_duration == cooldown_duration,
            r.last_error_time is None,
    {
        ScheduleCooldownRepository { cooldown_duration, last_error_time: None }
    }

    /// Sets the cooldown timer active from `at`.
    pub fn activate_at(&mut self, at: Instant)
        ensures
            final(self).last_error_time == Some(at),
            final(self).cooldown_duration == old(self).cooldown_duration,
    {
        self.last_error_time = Some(at);
    }

    /// Whether the cooldown timer is still active at `at`.
    pub fn is_cooldown_active_at(&self, at: Instant) -> (r: bool)
        ensures
            r == self.active_at(at),
    {
        match self.last_error_time {
            Some(start) => !self.is_expired(start, at),
            None => false,
        }
    }

    /// Sets the cooldown timer active from the current moment.
    pub fn activate(&mut self)
        ensures
            final(self).last_error_time is Some,
            final(self).cooldown_duration == old(self).cooldown_duration,
    {
        let at = now();
        self.activate_at(at);
    }

    /// Whether the cooldown timer is still active now; without a recorded error it never is.
    pub fn is_cooldown_active(&self) -> (r: bool)
        ensures
            r ==> self.last_error_time is Some,
            exists|at: Instant| r == self.active_at(at),
    {
        let at = now();
        self.is_cooldown_active_at(at)
    }
}

impl Default for ScheduleCooldownRepository {
    /// A cooldown of one minute, with no error recorded.
    fn default() -> (r: ScheduleCooldownRepository)
        ensures
            r.cooldown_duration == (TimeDelta { nanos: NANOS_PER_MINUTE }),
            r.last_error_time is None,
    {
        ScheduleCooldownRepository { cooldown_duration: TimeDelta { nanos: NANOS_PER_MINUTE }, last_error_time: None }
    }
}

/// Right after an activation the cooldown is active, for any positive duration.
pub proof fn lemma_active_right_after_activation(repo: ScheduleCooldownRepository, at: Instant)
    requires
        repo.cooldown_duration.nanos > 0,
        repo.last_error_time == Some(at),
    ensures
        repo.active_at(at),
{
}

/// Without a recorded error the cooldown is never active.
pub proof fn lemma_inactive_without_error(repo: ScheduleCooldownRepository, at: Instant)
    requires
        repo.last_error_time is None,
    ensures
        !repo.active_at(at),
{
}

/// The cooldown is active exactly while less than its duration has passed since the error
/// (where the error's time plus the duration is a moment dates and times can hold).
pub proof fn lemma_active_until_duration_passes(repo: ScheduleCooldownRepository, start: Instant, at: Instant)
    requires
        repo.last_error_time == Some(start),
        end_exists(start, repo.cooldown_duration),
    ensures
        repo.active_at(at) <==> at.nanos < start.nanos + repo.cooldown_duration.nanos,
{
}

} // verus!
