//! Decisions of the schedule service: ranking search results, combining remote results,
//! checking week offsets, and what to do after the university's server answered or failed.
use vstd::prelude::*;
use crate::calendar::{Date, add_days_spec};
use crate::errors::{error_spec, CommonError, ErrorKind};
use crate::mapping::{MpeiSearchResult, WeekOfSemester, semester_week_number, week_number};
use crate::names::{schedule_name_spec, search_query_spec, ScheduleName, ScheduleSearchQuery};
use crate::models::{Schedule, ScheduleSearchResult, ScheduleType, SearchResultView, results_views, weeks_views, WeekView};
use crate::pattern::{replace_all, replace_spec};
use crate::text::{chars_of, find_byte, find_byte_spec, lowercase, push_str, str_equals, to_lowercase};

verus! {

/// The sort key of a result: the byte offset of the query in the lower-cased name, or the
/// number of results where the name does not contain it.
pub open spec fn rank_key(name: Seq<char>, query: Seq<char>, n: int) -> int {
    match find_byte_spec(lowercase(name), query) {
        Some(b) => b,
        None => n,
    }
}

/// The sort keys of all results.
pub open spec fn rank_keys(results: Seq<SearchResultView>, query: Seq<char>) -> Seq<int> {
    Seq::new(results.len(), |i: int| rank_key(results[i].name, query, results.len() as int))
}

/// Result `i` comes before result `j`: a smaller key, or the same key and an earlier place.
pub open spec fn ranks_before(keys: Seq<int>, i: int, j: int) -> bool {
    keys[i] < keys[j] || (keys[i] == keys[j] && i < j)
}

/// `p` lists every index of `keys` once, in ranking order.
pub open spec fn is_ranking(keys: Seq<int>, p: Seq<int>) -> bool {
    &&& p.len() == keys.len()
    &&& forall|a: int| 0 <= a < p.len() ==> 0 <= #[trigger] p[a] < keys.len()
    &&& forall|a: int, b: int| 0 <= a < b < p.len() ==> #[trigger] p[a] != #[trigger] p[b]
    &&& forall|a: int, b: int| 0 <= a < b < p.len() ==> ranks_before(keys, #[trigger] p[a], #[trigger] p[b])
}

/// `r` holds the results `results` in the order of their ranks for `query`.
pub open spec fn ranked(results: Seq<ScheduleSearchResult>, query: Seq<char>, r: Seq<ScheduleSearchResult>) -> bool {
    exists|p: Seq<int>| is_ranking(rank_keys(results_views(results), query), p)
        && r.len() == p.len()
        && forall|a: int| 0 <= a < p.len() ==> (#[trigger] r[a])@ == results[p[a]]@
}

fn rank_key_of(r: &ScheduleSearchResult, query: &[char], n: usize) -> (k: u128)
    ensures
        k == rank_key(r.name@, query@, n as int),
{
    let lowered = to_lowercase(r.name.as_str());
    let chars = chars_of(lowered.as_str());
    match find_byte(chars.as_slice(), query) {
        Some(b) => b,
        None => n as u128,
    }
}

/// Orders search results by where the query occurs in their lower-cased names (earlier
/// first; results whose name lacks it rank as if it occurred at the offset equal to the
/// number of results), keeping the given order among equal ranks.
pub fn rank_search_results(results: &Vec<ScheduleSearchResult>, query: &str) -> (r: Vec<ScheduleSearchResult>)
    ensures
        ranked(results@, query@, r@),
{
    let ghost rv = results_views(results@);
    let ghost keys = rank_keys(rv, query@);
    let n = results.len();
    let q = chars_of(query);
    let mut key_vec: Vec<u128> = Vec::new();
    let mut i: usize = 0;
    while i < n
        invariant
            i <= n,
            n == results@.len(),
            rv == results_views(results@),
            keys == rank_keys(rv, query@),
            q@ == query@,
            key_vec@.len() == i,
            forall|j: int| 0 <= j < i ==> key_vec@[j] == keys[j],
        decreases n - i,
    {
        let k = rank_key_of(&results[i], q.as_slice(), n);
        assert(rv[i as int].name == results@[i as int].name@);
        key_vec.push(k);
        i = i + 1;
    }
    let mut order: Vec<usize> = Vec::new();
    let mut i: usize = 0;
    while i < n
        invariant
            i <= n,
            n == results@.len(),
            n == keys.len(),
            key_vec@.len() == n,
            forall|j: int| 0 <= j < n ==> key_vec@[j] == keys[j],
            order@.len() == i,
            forall|a: int| 0 <= a < i ==> (#[trigger] order@[a]) < i,
            forall|a: int, b: int| 0 <= a < b < i ==> #[trigger] order@[a] != #[trigger] order@[b],
            forall|a: int, b: int| 0 <= a < b < i ==> ranks_before(keys, #[trigger] order@[a] as int, #[trigger] order@[b] as int),
        decreases n - i,
    {
        let ki = key_vec[i];
        let mut pos: usize = 0;
        while pos < i && key_vec[order[pos]] <= ki
            invariant
                pos <= i,
                i < n,
                order@.len() == i,
                key_vec@.len() == n,
                forall|a: int| 0 <= a < i ==> (#[trigger] order@[a]) < i,
                forall|a: int| 0 <= a < pos ==> key_vec@[#[trigger] order@[a] as int] <= ki,
            decreases i - pos,
        {
            pos = pos + 1;
        }
        let ghost before = order@;
        proof {
            // keys along the order never decrease, so everything from `pos` on has a larger key
            assert forall|b: int| pos <= b < i implies key_vec@[#[trigger] before[b] as int] > ki by {
                if b > pos {
                    assert(ranks_before(keys, before[pos as int] as int, before[b] as int));
                }
            }
        }
        order.insert(pos, i);
        proof {
            assert forall|a: int| 0 <= a < i + 1 implies (#[trigger] order@[a]) < i + 1 by {
                if a < pos {
                    assert(order@[a] == before[a]);
                } else if a > pos {
                    assert(order@[a] == before[a - 1]);
                }
            }
            assert forall|a: int, b: int| 0 <= a < b < i + 1 implies #[trigger] order@[a] != #[trigger] order@[b] by {
                if a < pos {
                    assert(order@[a] == before[a]);
                } else if a > pos {
                    assert(order@[a] == before[a - 1]);
                }
                if b < pos {
                    assert(order@[b] == before[b]);
                } else if b > pos {
                    assert(order@[b] == before[b - 1]);
                }
            }
            assert forall|a: int, b: int| 0 <= a < b < i + 1 implies ranks_before(keys, #[trigger] order@[a] as int, #[trigger] order@[b] as int) by {
                if a < pos {
                    assert(order@[a] == before[a]);
                } else if a > pos {
                    assert(order@[a] == before[a - 1]);
                }
                if b < pos {
                    assert(order@[b] == before[b]);
                } else if b > pos {
                    assert(order@[b] == before[b - 1]);
                }
                if a < pos && b > pos {
                    assert(ranks_before(keys, before[a] as int, before[b - 1] as int));
                }
            }
        }
        i = i + 1;
    }
    let mut out: Vec<ScheduleSearchResult> = Vec::new();
    let mut a: usize = 0;
    while a < n
        invariant
            a <= n,
            n == results@.len(),
            order@.len() == n,
            forall|x: int| 0 <= x < n ==> (#[trigger] order@[x]) < n,
            out@.len() == a,
            forall|x: int| 0 <= x < a ==> (#[trigger] out@[x])@ == results@[order@[x] as int]@,
        decreases n - a,
    {
        out.push(results[order[a]].duplicate());
        a = a + 1;
    }
    let ghost p = order@.map_values(|x: usize| x as int);
    assert(is_ranking(keys, p));
    out
}

/// The results of a search over all types: the groups found, then the persons found; a
/// search that failed adds nothing.
pub fn combine_search_results(
    groups: Option<Vec<ScheduleSearchResult>>,
    persons: Option<Vec<ScheduleSearchResult>>,
) -> (r: Vec<ScheduleSearchResult>)
    ensures
        r@ == (match groups { Some(g) => g@, None => Seq::empty() }) + (match persons { Some(p) => p@, None => Seq::empty() }),
{
    let mut out: Vec<ScheduleSearchResult> = Vec::new();
    match groups {
        Some(mut g) => out.append(&mut g),
        None => {},
    }
    match persons {
        Some(mut p) => out.append(&mut p),
        None => {},
    }
    out
}

/// Largest week offset accepted is one below this.
pub const MAX_OFFSET: i32 = 306783378;

/// Smallest week offset accepted is one above this.
pub const MIN_OFFSET: i32 = -306783378;

/// Week offsets must lie strictly between `i32::MIN / 7` and `i32::MAX / 7`.
pub fn check_offset(offset: i32) -> (r: Result<(), CommonError>)
    ensures
        offset >= MAX_OFFSET ==> (r matches Err(e) && e@ == error_spec(ErrorKind::User, "Too large offset"@)),
        offset <= MIN_OFFSET ==> (r matches Err(e) && e@ == error_spec(ErrorKind::User, "Too small offset"@)),
        MIN_OFFSET < offset < MAX_OFFSET ==> r is Ok,
{
    assert(MAX_OFFSET == i32::MAX / 7);
    if offset >= MAX_OFFSET {
        return Err(CommonError::user("Too large offset"));
    }
    if offset <= MIN_OFFSET {
        return Err(CommonError::user("Too small offset"));
    }
    Ok(())
}

/// The Monday of the week `offset` weeks from the week of `today`; `None` when the day
/// `7 * offset` days away lies outside the calendar.
pub open spec fn week_start_spec(today: Date, offset: int) -> Option<Date> {
    match add_days_spec(today, 7 * offset) {
        None => None,
        Some(d) => add_days_spec(d, 1 - d.weekday_spec()),
    }
}

/// The Monday of the week `offset` weeks from the week of `today`.
pub fn week_start_of(today: Date, offset: i32) -> (r: Option<Date>)
    requires
        today.wf(),
        MIN_OFFSET < offset < MAX_OFFSET,
        add_days_spec(today, 7 * offset) matches Some(d) ==> add_days_spec(d, 1 - d.weekday_spec()) is Some,
    ensures
        r == week_start_spec(today, offset as int),
        r matches Some(d) ==> d.wf() && d.weekday_spec() == 1,
{
    let day = match today.add_days(offset * 7) {
        None => return None,
        Some(d) => d,
    };
    let w = day.weekday_from_monday();
    let monday = day.add_days(1 - w as i32);
    proof {
        crate::calendar::lemma_add_days(day, 1 - w as int);
        if let Some(m) = monday {
            assert(m.day_number() == day.day_number() + 1 - w);
            assert((m.day_number() % 7 + 1) == 1) by (nonlinear_arith)
                requires
                    m.day_number() == day.day_number() + 1 - w,
                    w == day.day_number() % 7 + 1;
        }
    }
    monday
}

/// Sets the week of the semester of a schedule's first week; `Ok(true)` when it changed.
pub fn fix_week_of_semester(schedule: &mut Schedule, week_of_semester: WeekOfSemester) -> (r: Result<bool, CommonError>)
    ensures
        old(schedule).weeks@.len() == 0 ==> (r matches Err(e)
            && e@ == error_spec(ErrorKind::Internal, "Encountered invalid schedule with empty weeks field"@)
            && final(schedule)@ == old(schedule)@),
        old(schedule).weeks@.len() > 0 ==> {
            let w = old(schedule)@.weeks[0];
            let t = semester_week_number(week_of_semester);
            &&& r == Ok::<bool, CommonError>(w.week_of_semester != t)
            &&& final(schedule)@ == (crate::models::ScheduleView {
                weeks: old(schedule)@.weeks.update(0, WeekView { week_of_semester: t, ..w }),
                ..old(schedule)@
            })
        },
{
    if schedule.weeks.len() == 0 {
        return Err(CommonError::internal("Encountered invalid schedule with empty weeks field"));
    }
    let target = week_number(week_of_semester);
    if schedule.weeks[0].week_of_semester == target {
        assert(old(schedule)@.weeks.update(0, WeekView { week_of_semester: target, ..old(schedule)@.weeks[0] }) =~= old(schedule)@.weeks);
        return Ok(false);
    }
    let mut week = schedule.weeks.remove(0);
    week.week_of_semester = target;
    schedule.weeks.insert(0, week);
    assert(weeks_views(schedule.weeks@) =~= old(schedule)@.weeks.update(0, WeekView { week_of_semester: target, ..old(schedule)@.weeks[0] }));
    Ok(true)
}

/// What the schedule service does after asking the university's server.
#[derive(Clone, Copy, PartialEq, Eq, Structural, Debug)]
pub struct AfterRemote {
    /// Start the cooldown: the server is unavailable.
    pub activate_cooldown: bool,
    /// Look in the cache again, now ignoring expiration.
    pub retry_cache_ignoring_expiration: bool,
    /// Store the fetched schedule in the cache.
    pub store_in_cache: bool,
}

/// After a request to the server: a gateway error starts the cooldown; a failure when the
/// cache was read with expiration leads to reading it again without; a success is cached.
pub fn after_remote(remote: Option<ErrorKind>, ignored_expiration: bool) -> (r: AfterRemote)
    ensures
        r.activate_cooldown == (remote == Some(ErrorKind::Gateway)),
        r.retry_cache_ignoring_expiration == (remote is Some && !ignored_expiration),
        r.store_in_cache == (remote is None),
{
    let activate_cooldown = match remote {
        Some(ErrorKind::Gateway) => true,
        _ => false,
    };
    AfterRemote {
        activate_cooldown,
        retry_cache_ignoring_expiration: remote.is_some() && !ignored_expiration,
        store_in_cache: remote.is_none(),
    }
}

/// Runs of two or more whitespace characters.
pub const REPEATED_SPACES_PATTERN: &'static str = r"\s{2,}";

/// Two names are the same up to runs of whitespace and case; `None` when the pattern does
/// not compile.
pub open spec fn fuzzy_equals_spec(a: Seq<char>, b: Seq<char>) -> Option<bool> {
    match (replace_spec(REPEATED_SPACES_PATTERN@, a, " "@), replace_spec(REPEATED_SPACES_PATTERN@, b, " "@)) {
        (Some(x), Some(y)) => Some(lowercase(x) == lowercase(y)),
        _ => None,
    }
}

pub fn fuzzy_equals(a: &str, b: &str) -> (r: Option<bool>)
    ensures
        r == fuzzy_equals_spec(a@, b@),
{
    let clear_a = match replace_all(REPEATED_SPACES_PATTERN, a, " ") {
        None => return None,
        Some(x) => x,
    };
    let clear_b = match replace_all(REPEATED_SPACES_PATTERN, b, " ") {
        None => return None,
        Some(x) => x,
    };
    let la = to_lowercase(clear_a.as_str());
    let lb = to_lowercase(clear_b.as_str());
    Some(str_equals(la.as_str(), lb.as_str()))
}

/// The name a schedule type has in messages: `Group`, `Person` or `Room`.
pub open spec fn type_debug_name(t: ScheduleType) -> Seq<char> {
    match t {
        ScheduleType::Group => "Group"@,
        ScheduleType::Person => "Person"@,
        ScheduleType::Room => "Room"@,
    }
}

/// The message of the error for a schedule the university does not know.
pub open spec fn not_found_message(t: ScheduleType, name: Seq<char>) -> Seq<char> {
    "Schedule with type '"@ + type_debug_name(t) + "' and name '"@ + name + "' not found"@
}

/// The id of the schedule `name` of type `t` from the first search result of the university:
/// only a result whose label is the name, up to whitespace runs and case, counts.
pub fn schedule_id_from_search(first: Option<&MpeiSearchResult>, name: &str, t: ScheduleType) -> (r: Result<i64, CommonError>)
    ensures
        match first {
            Some(res) => match fuzzy_equals_spec(res.label@, name@) {
                Some(true) => r == Ok::<i64, CommonError>(res.id),
                Some(false) => r matches Err(e) && e@ == error_spec(ErrorKind::User, not_found_message(t, name@)),
                None => r matches Err(e) && e@ == error_spec(ErrorKind::Internal, "Invalid name pattern"@),
            },
            None => r matches Err(e) && e@ == error_spec(ErrorKind::User, not_found_message(t, name@)),
        },
{
    match first {
        Some(res) => match fuzzy_equals(res.label.as_str(), name) {
            Some(true) => return Ok(res.id),
            Some(false) => {},
            None => return Err(CommonError::internal("Invalid name pattern")),
        },
        None => {},
    }
    let mut message = String::new();
    push_str(&mut message, "Schedule with type '");
    match t {
        ScheduleType::Group => push_str(&mut message, "Group"),
        ScheduleType::Person => push_str(&mut message, "Person"),
        ScheduleType::Room => push_str(&mut message, "Room"),
    }
    push_str(&mut message, "' and name '");
    push_str(&mut message, name);
    push_str(&mut message, "' not found");
    assert(message@ =~= not_found_message(t, name@));
    Err(CommonError::UserError(message))
}

/// The message of the error for a type column with an unknown value.
pub open spec fn invalid_db_type_message(value: Seq<char>) -> Seq<char> {
    "Database contains invalid schedule type value: '"@ + value + "'"@
}

/// The schedule type stored in the type column of the search results table.
pub fn schedule_type_from_db(value: &str) -> (r: Result<ScheduleType, CommonError>)
    ensures
        match crate::models::parse_schedule_type_spec(value@) {
            Some(t) => r == Ok::<ScheduleType, CommonError>(t),
            None => r matches Err(e) && e@ == error_spec(ErrorKind::Internal, invalid_db_type_message(value@)),
        },
{
    if str_equals(value, "group") {
        Ok(ScheduleType::Group)
    } else if str_equals(value, "person") {
        Ok(ScheduleType::Person)
    } else if str_equals(value, "room") {
        Ok(ScheduleType::Room)
    } else {
        let mut message = String::new();
        push_str(&mut message, "Database contains invalid schedule type value: '");
        push_str(&mut message, value);
        push_str(&mut message, "'");
        Err(CommonError::InternalError(message))
    }
}

/// One row of values: `('id', 'name', 'description', 'type')`.
pub open spec fn values_row(r: SearchResultView) -> Seq<char> {
    "('"@ + r.id + "', '"@ + r.name + "', '"@ + r.description + "', '"@
        + crate::models::schedule_type_name(r.schedule_type) + "')"@
}

/// The rows of values of the results, separated by a comma and a line break.
pub open spec fn values_rows(rs: Seq<SearchResultView>) -> Seq<char>
    decreases rs.len(),
{
    if rs.len() == 0 {
        Seq::empty()
    } else if rs.len() == 1 {
        values_row(rs[0])
    } else {
        values_rows(rs.drop_last()) + ",\n"@ + values_row(rs.last())
    }
}

/// The values of an upsert of search results into the database.
pub fn search_results_values(results: &Vec<ScheduleSearchResult>) -> (r: String)
    ensures
        r@ == values_rows(results_views(results@)),
{
    let ghost rv = results_views(results@);
    let mut out = String::new();
    let mut i: usize = 0;
    assert(rv.take(0) =~= Seq::<SearchResultView>::empty());
    while i < results.len()
        invariant
            i <= results@.len(),
            rv == results_views(results@),
            out@ == values_rows(rv.take(i as int)),
        decreases results@.len() - i,
    {
        let ghost before = out@;
        assert(rv.take(i + 1).drop_last() =~= rv.take(i as int));
        assert(rv.take(i + 1).last() == results@[i as int]@);
        if i > 0 {
            push_str(&mut out, ",\n");
        }
        let ghost mid = out@;
        let r = &results[i];
        push_str(&mut out, "('");
        push_str(&mut out, r.id.as_str());
        push_str(&mut out, "', '");
        push_str(&mut out, r.name.as_str());
        push_str(&mut out, "', '");
        push_str(&mut out, r.description.as_str());
        push_str(&mut out, "', '");
        push_str(&mut out, r.schedule_type.as_str());
        push_str(&mut out, "')");
        assert(out@ =~= mid + values_row(r@));
        proof {
            if i == 0 {
                assert(rv.take(1) =~= seq![rv[0]]);
            }
        }
        i = i + 1;
    }
    assert(rv.take(i as int) =~= rv);
    out
}

/// The body of a search answer of the schedule service.
#[derive(Debug)]
pub struct SearchResponse {
    pub items: Vec<ScheduleSearchResult>,
}

impl SearchResponse {
    pub fn items(self) -> (r: Vec<ScheduleSearchResult>)
        ensures
            r == self.items,
    {
        self.items
    }
}

/// Cached schedules are served whatever their age for weeks before the current one (the
/// university's site drops old schedules, so the cache is all there is) and while the
/// cooldown is active.
pub fn expiration_ignored(week_start: Date, current_week_start: Date, cooldown_active: bool) -> (r: bool)
    ensures
        r == (week_start.before(current_week_start) || cooldown_active),
{
    week_start.is_before(&current_week_start) || cooldown_active
}

/// Where serving a schedule stands; the service starts at [ScheduleFetch::Start] and feeds
/// [schedule_fetch_step] what each action brought until it returns or fails.
#[derive(Debug)]
pub enum ScheduleFetch {
    /// A request for the schedule `name` of type `schedule_type`, `offset` weeks from the
    /// week of `today`.
    Start { name: String, schedule_type: ScheduleType, offset: i32, today: Date },
    /// Waiting for the week of the semester of the requested week.
    WeekOfSemester { name: ScheduleName, schedule_type: ScheduleType, week_start: Date, current_week_start: Date },
    /// Waiting for whether the cooldown is active.
    Cooldown { name: ScheduleName, schedule_type: ScheduleType, week_start: Date, current_week_start: Date, week_of_semester: WeekOfSemester },
    /// Waiting for the cache.
    Cache { name: ScheduleName, schedule_type: ScheduleType, week_start: Date, week_of_semester: WeekOfSemester, ignore_expiration: bool },
    /// Waiting for the university's server.
    Remote { name: ScheduleName, schedule_type: ScheduleType, week_start: Date, week_of_semester: WeekOfSemester, ignore_expiration: bool },
    /// The server failed; waiting for the cache read without expiration.
    Fallback { name: ScheduleName, error: CommonError, week_of_semester: WeekOfSemester },
    /// Nothing is left to do.
    Finished,
}

/// What an action brought.
#[derive(Debug)]
pub enum FetchEvent {
    /// The request arrived.
    Begin,
    /// The week of the semester of the requested week.
    WeekOfSemester(WeekOfSemester),
    /// Whether the cooldown is active.
    Cooldown(bool),
    /// What the cache holds for the week.
    Cached(Option<Schedule>),
    /// What the server answered.
    Fetched(Result<Schedule, CommonError>),
}

/// What the service does next.
#[derive(Debug)]
pub enum FetchAction {
    /// Work out the week of the semester of the week that starts on this day.
    LoadWeekOfSemester(Date),
    /// Find out whether the cooldown is active.
    ReadCooldown,
    /// Start the cooldown if asked to, then read the cache for the week.
    ReadCache { name: ScheduleName, schedule_type: ScheduleType, week_start: Date, ignore_expiration: bool, activate_cooldown: bool },
    /// Ask the university's server for the week.
    FetchRemote { name: ScheduleName, schedule_type: ScheduleType, week_start: Date, week_of_semester: WeekOfSemester },
    /// Answer with the schedule.
    Return(Schedule),
    /// Put the schedule into the cache under its owner's name and type and the week that
    /// starts on `week_start`, then answer with it.
    StoreAndReturn { schedule: Schedule, name: ScheduleName, schedule_type: ScheduleType, week_start: Date },
    /// Start the cooldown if asked to, then fail with the error.
    Fail { error: CommonError, activate_cooldown: bool },
}

/// How a cached schedule is served: its first week gets the current week of the semester,
/// and it is stored again when that changed it; a schedule without weeks is an error.
pub open spec fn served_cached(schedule: Schedule, week_of_semester: WeekOfSemester, name: ScheduleName, a: FetchAction) -> bool {
    if schedule.weeks@.len() == 0 {
        a matches FetchAction::Fail { error, activate_cooldown }
            && error@ == error_spec(ErrorKind::Internal, "Encountered invalid schedule with empty weeks field"@)
            && !activate_cooldown
    } else {
        let t = semester_week_number(week_of_semester);
        let fixed = crate::models::ScheduleView {
            weeks: schedule@.weeks.update(0, WeekView { week_of_semester: t, ..schedule@.weeks[0] }),
            ..schedule@
        };
        if schedule@.weeks[0].week_of_semester != t {
            a matches FetchAction::StoreAndReturn { schedule: s, name: n, schedule_type: t, week_start } && s@ == fixed
                && n@ == name@ && t == schedule.schedule_type && week_start == schedule@.weeks[0].first_day_of_week
        } else {
            a matches FetchAction::Return(s) && s@ == fixed
        }
    }
}

fn serve_cached(mut schedule: Schedule, week_of_semester: WeekOfSemester, name: ScheduleName) -> (r: FetchAction)
    ensures
        served_cached(schedule, week_of_semester, name, r),
{
    let ghost original = schedule@;
    let result = fix_week_of_semester(&mut schedule, week_of_semester);
    assert(schedule@.weeks.len() == schedule.weeks@.len());
    assert(original.weeks.len() > 0 ==> schedule@.weeks[0].first_day_of_week == original.weeks[0].first_day_of_week);
    match result {
        Err(error) => FetchAction::Fail { error, activate_cooldown: false },
        Ok(true) => {
            assert(schedule@.weeks[0] == schedule.weeks@[0]@);
            let week_start = schedule.weeks[0].first_day_of_week;
            let schedule_type = schedule.schedule_type;
            FetchAction::StoreAndReturn { schedule, name, schedule_type, week_start }
        },
        Ok(false) => FetchAction::Return(schedule),
    }
}

/// One step of serving a schedule: from where it stands and what the last action brought, to
/// where it stands next and what to do. The request is checked (offset, then name) and its
/// week found; the cache is read, ignoring expiration for past weeks and during the
/// cooldown; on a miss the server is asked; its schedule is stored and served; on a failure
/// a gateway error starts the cooldown and, unless expiration was already ignored, the cache
/// is read once more without it before the failure is reported.
pub fn schedule_fetch_step(state: ScheduleFetch, event: FetchEvent) -> (r: (ScheduleFetch, FetchAction))
    requires
        state matches ScheduleFetch::Start { today, offset, .. } ==> today.wf()
            && (MIN_OFFSET < offset < MAX_OFFSET ==> (add_days_spec(today, 7 * offset) matches Some(d)
                ==> add_days_spec(d, 1 - d.weekday_spec()) is Some)),
        state matches ScheduleFetch::Start { today, .. } ==> add_days_spec(today, 1 - today.weekday_spec()) is Some,
    ensures
        // a request: offset, name and week are checked in this order
        state matches ScheduleFetch::Start { name, schedule_type, offset, today } ==> (event is Begin ==> {
            if offset >= MAX_OFFSET {
                r matches (ScheduleFetch::Finished, FetchAction::Fail { error, activate_cooldown })
                    && error@ == error_spec(ErrorKind::User, "Too large offset"@) && !activate_cooldown
            } else if offset <= MIN_OFFSET {
                r matches (ScheduleFetch::Finished, FetchAction::Fail { error, activate_cooldown })
                    && error@ == error_spec(ErrorKind::User, "Too small offset"@) && !activate_cooldown
            } else {
                match schedule_name_spec(name@, schedule_type) {
                    Err(e) => r matches (ScheduleFetch::Finished, FetchAction::Fail { error, activate_cooldown })
                        && error@ == e && !activate_cooldown,
                    Ok(n) => match week_start_spec(today, offset as int) {
                        None => r matches (ScheduleFetch::Finished, FetchAction::Fail { error, activate_cooldown })
                            && error@ == error_spec(ErrorKind::User, "Invalid week offset"@) && !activate_cooldown,
                        Some(ws) => r matches (ScheduleFetch::WeekOfSemester { name: n2, schedule_type: t2, week_start, current_week_start },
                            FetchAction::LoadWeekOfSemester(load))
                            && n2@ == n && t2 == schedule_type && week_start == ws && load == ws
                            && Some(current_week_start) == week_start_spec(today, 0),
                    },
                }
            }
        }),
        // the week of the semester: then the cooldown
        state matches ScheduleFetch::WeekOfSemester { name, schedule_type, week_start, current_week_start } ==>
            (event matches FetchEvent::WeekOfSemester(w) ==> (r matches (ScheduleFetch::Cooldown { name: n2, schedule_type: t2, week_start: ws2, current_week_start: c2, week_of_semester: w2 },
                FetchAction::ReadCooldown)
                && n2@ == name@ && t2 == schedule_type && ws2 == week_start && c2 == current_week_start && w2 == w)),
        // the cooldown: then the cache
        state matches ScheduleFetch::Cooldown { name, schedule_type, week_start, current_week_start, week_of_semester } ==>
            (event matches FetchEvent::Cooldown(active) ==> (r matches (ScheduleFetch::Cache { name: n2, schedule_type: t2, week_start: ws2, week_of_semester: w2, ignore_expiration },
                FetchAction::ReadCache { name: n3, schedule_type: t3, week_start: ws3, ignore_expiration: i3, activate_cooldown })
                && n2@ == name@ && n3@ == name@ && t2 == schedule_type && t3 == schedule_type
                && ws2 == week_start && ws3 == week_start && w2 == week_of_semester
                && ignore_expiration == (week_start.before(current_week_start) || active)
                && i3 == ignore_expiration && !activate_cooldown)),
        // a cache hit is served; a miss goes to the server
        state matches ScheduleFetch::Cache { name, schedule_type, week_start, week_of_semester, ignore_expiration } ==>
            (event matches FetchEvent::Cached(found) ==> match found {
                Some(s) => r.0 is Finished && served_cached(s, week_of_semester, name, r.1),
                None => r matches (ScheduleFetch::Remote { name: n2, schedule_type: t2, week_start: ws2, week_of_semester: w2, ignore_expiration: i2 },
                    FetchAction::FetchRemote { name: n3, schedule_type: t3, week_start: ws3, week_of_semester: w3 })
                    && n2@ == name@ && n3@ == name@ && t2 == schedule_type && t3 == schedule_type
                    && ws2 == week_start && ws3 == week_start && w2 == week_of_semester && w3 == week_of_semester
                    && i2 == ignore_expiration,
            }),
        // the server's answer: stored and served, or the failure handled
        state matches ScheduleFetch::Remote { name, schedule_type, week_start, week_of_semester, ignore_expiration } ==>
            (event matches FetchEvent::Fetched(answer) ==> match answer {
                Ok(s) => r matches (ScheduleFetch::Finished, FetchAction::StoreAndReturn { schedule, name: n2, schedule_type: t2, week_start: ws })
                    && schedule == s && n2@ == name@ && t2 == schedule_type && ws == week_start,
                Err(e) => if ignore_expiration {
                    r matches (ScheduleFetch::Finished, FetchAction::Fail { error, activate_cooldown })
                        && error == e && activate_cooldown == (e@.kind == ErrorKind::Gateway)
                } else {
                    r matches (ScheduleFetch::Fallback { name: n2, error, week_of_semester: w2 },
                        FetchAction::ReadCache { name: n3, schedule_type: t3, week_start: ws3, ignore_expiration: i3, activate_cooldown })
                        && error == e && w2 == week_of_semester && n2@ == name@ && n3@ == name@ && t3 == schedule_type && ws3 == week_start
                        && i3 && activate_cooldown == (e@.kind == ErrorKind::Gateway)
                },
            }),
        // the last cache read: a hit is served, else the server's failure is reported
        state matches ScheduleFetch::Fallback { name, error, week_of_semester } ==>
            (event matches FetchEvent::Cached(found) ==> match found {
                Some(s) => r.0 is Finished && served_cached(s, week_of_semester, name, r.1),
                None => r matches (ScheduleFetch::Finished, FetchAction::Fail { error: e2, activate_cooldown })
                    && e2 == error && !activate_cooldown,
            }),
        // any other event ends the service with an internal error
        !((state is Start && event is Begin)
            || (state is WeekOfSemester && event is WeekOfSemester)
            || (state is Cooldown && event is Cooldown)
            || (state is Cache && event is Cached)
            || (state is Remote && event is Fetched)
            || (state is Fallback && event is Cached)) ==>
            (r matches (ScheduleFetch::Finished, FetchAction::Fail { error, activate_cooldown })
                && error@ == error_spec(ErrorKind::Internal, "Unexpected event while serving a schedule"@) && !activate_cooldown),
{
    match (state, event) {
        (ScheduleFetch::Start { name, schedule_type, offset, today }, FetchEvent::Begin) => {
            if let Err(error) = check_offset(offset) {
                return (ScheduleFetch::Finished, FetchAction::Fail { error, activate_cooldown: false });
            }
            let name = match ScheduleName::new(name, schedule_type) {
                Err(error) => return (ScheduleFetch::Finished, FetchAction::Fail { error, activate_cooldown: false }),
                Ok(n) => n,
            };
            let week_start = match week_start_of(today, offset) {
                None => return (ScheduleFetch::Finished, FetchAction::Fail { error: CommonError::user("Invalid week offset"), activate_cooldown: false }),
                Some(d) => d,
            };
            let current_week_start = match week_start_of(today, 0) {
                None => return (ScheduleFetch::Finished, FetchAction::Fail { error: CommonError::user("Invalid week offset"), activate_cooldown: false }),
                Some(d) => d,
            };
            (ScheduleFetch::WeekOfSemester { name, schedule_type, week_start, current_week_start }, FetchAction::LoadWeekOfSemester(week_start))
        },
        (ScheduleFetch::WeekOfSemester { name, schedule_type, week_start, current_week_start }, FetchEvent::WeekOfSemester(w)) => {
            (ScheduleFetch::Cooldown { name, schedule_type, week_start, current_week_start, week_of_semester: w }, FetchAction::ReadCooldown)
        },
        (ScheduleFetch::Cooldown { name, schedule_type, week_start, current_week_start, week_of_semester }, FetchEvent::Cooldown(active)) => {
            let ignore_expiration = expiration_ignored(week_start, current_week_start, active);
            let read = FetchAction::ReadCache { name: name.duplicate(), schedule_type, week_start, ignore_expiration, activate_cooldown: false };
            (ScheduleFetch::Cache { name, schedule_type, week_start, week_of_semester, ignore_expiration }, read)
        },
        (ScheduleFetch::Cache { name, schedule_type, week_start, week_of_semester, ignore_expiration }, FetchEvent::Cached(found)) => {
            match found {
                Some(s) => (ScheduleFetch::Finished, serve_cached(s, week_of_semester, name)),
                None => {
                    let fetch = FetchAction::FetchRemote { name: name.duplicate(), schedule_type, week_start, week_of_semester };
                    (ScheduleFetch::Remote { name, schedule_type, week_start, week_of_semester, ignore_expiration }, fetch)
                },
            }
        },
        (ScheduleFetch::Remote { name, schedule_type, week_start, week_of_semester, ignore_expiration }, FetchEvent::Fetched(answer)) => {
            match answer {
                Ok(schedule) => (ScheduleFetch::Finished, FetchAction::StoreAndReturn { schedule, name, schedule_type, week_start }),
                Err(error) => {
                    let plan = after_remote(Some(error.kind()), ignore_expiration);
                    if plan.retry_cache_ignoring_expiration {
                        let read = FetchAction::ReadCache {
                            name: name.duplicate(), schedule_type, week_start, ignore_expiration: true, activate_cooldown: plan.activate_cooldown,
                        };
                        (ScheduleFetch::Fallback { name, error, week_of_semester }, read)
                    } else {
                        (ScheduleFetch::Finished, FetchAction::Fail { error, activate_cooldown: plan.activate_cooldown })
                    }
                },
            }
        },
        (ScheduleFetch::Fallback { name, error, week_of_semester }, FetchEvent::Cached(found)) => {
            match found {
                Some(s) => (ScheduleFetch::Finished, serve_cached(s, week_of_semester, name)),
                None => (ScheduleFetch::Finished, FetchAction::Fail { error, activate_cooldown: false }),
            }
        },
        _ => (ScheduleFetch::Finished, FetchAction::Fail {
            error: CommonError::internal("Unexpected event while serving a schedule"),
            activate_cooldown: false,
        }),
    }
}

/// Whether a request `offset` weeks from `today` can start: the Monday of the requested
/// week and of the current week lie in the calendar (which fails only at its far ends).
pub fn fetch_can_start(today: Date, offset: i32) -> (r: bool)
    requires
        today.wf(),
    ensures
        r == ((MIN_OFFSET < offset < MAX_OFFSET ==> (add_days_spec(today, 7 * offset) matches Some(d)
                ==> add_days_spec(d, 1 - d.weekday_spec()) is Some))
            && add_days_spec(today, 1 - today.weekday_spec()) is Some),
{
    proof {
        crate::calendar::lemma_add_days(today, 1 - today.weekday_spec());
    }
    let w = today.weekday_from_monday();
    let this_monday = today.add_days(1 - w as i32);
    if this_monday.is_none() {
        return false;
    }
    if !(MIN_OFFSET < offset && offset < MAX_OFFSET) {
        return true;
    }
    match today.add_days(offset * 7) {
        None => true,
        Some(d) => {
            proof {
                crate::calendar::lemma_add_days(today, 7 * offset as int);
            }
            let wd = d.weekday_from_monday();
            d.add_days(1 - wd as i32).is_some()
        },
    }
}

/// Where a search stands; the service starts at [ScheduleSearch::Start] and feeds
/// [schedule_search_step] what each action brought until it returns or fails.
#[derive(Debug)]
pub enum ScheduleSearch {
    /// A search for `query` among schedules of `schedule_type` (all types where it is `None`).
    Start { query: String, schedule_type: Option<ScheduleType> },
    /// Waiting for the in-memory cache.
    Cache { query: ScheduleSearchQuery, schedule_type: Option<ScheduleType> },
    /// Waiting for the university's server, asked for one type.
    Remote { query: ScheduleSearchQuery, schedule_type: ScheduleType },
    /// Waiting for the groups found by the server, in a search over all types.
    Groups { query: ScheduleSearchQuery },
    /// Waiting for the persons found by the server, with the groups it found (if it answered).
    Persons { query: ScheduleSearchQuery, groups: Option<Vec<ScheduleSearchResult>> },
    /// Waiting for the database to store what the server found.
    Store { query: ScheduleSearchQuery, schedule_type: Option<ScheduleType> },
    /// Waiting for the database's matches.
    Database { query: ScheduleSearchQuery, schedule_type: Option<ScheduleType> },
    /// Nothing is left to do.
    Finished,
}

/// What an action of a search brought.
#[derive(Debug)]
pub enum SearchEvent {
    /// The search arrived.
    Begin,
    /// What the in-memory cache holds for the query and type.
    Cached(Option<Vec<ScheduleSearchResult>>),
    /// What the server answered.
    Found(Result<Vec<ScheduleSearchResult>, CommonError>),
    /// Whether the database stored the results.
    Stored(Result<(), CommonError>),
    /// The database's matches.
    Loaded(Result<Vec<ScheduleSearchResult>, CommonError>),
}

/// What a search does next.
#[derive(Debug)]
pub enum SearchAction {
    /// Look the query and type up in the in-memory cache.
    ReadCache { query: ScheduleSearchQuery, schedule_type: Option<ScheduleType> },
    /// Ask the university's server for schedules of one type.
    SearchRemote { query: ScheduleSearchQuery, schedule_type: ScheduleType },
    /// Add the results to the database, updating those it has.
    StoreResults(Vec<ScheduleSearchResult>),
    /// Read the database's results whose names contain the query, of the type if one is given.
    ReadDatabase { query: ScheduleSearchQuery, schedule_type: Option<ScheduleType> },
    /// Put the results into the in-memory cache under the query and type, then answer with them.
    CacheAndReturn { query: ScheduleSearchQuery, schedule_type: Option<ScheduleType>, results: Vec<ScheduleSearchResult> },
    /// Answer with the results.
    Return(Vec<ScheduleSearchResult>),
    /// Fail with the error.
    Fail(CommonError),
}

/// After the server's answers: results to store go to the database first; with none, the
/// database is read at once.
pub open spec fn after_found(
    query: Seq<char>,
    schedule_type: Option<ScheduleType>,
    found: Seq<ScheduleSearchResult>,
    r: (ScheduleSearch, SearchAction),
) -> bool {
    if found.len() > 0 {
        r matches (ScheduleSearch::Store { query: q2, schedule_type: t2 }, SearchAction::StoreResults(v))
            && q2@ == query && t2 == schedule_type && v@ == found
    } else {
        r matches (ScheduleSearch::Database { query: q2, schedule_type: t2 }, SearchAction::ReadDatabase { query: q3, schedule_type: t3 })
            && q2@ == query && q3@ == query && t2 == schedule_type && t3 == schedule_type
    }
}

fn found_next(query: ScheduleSearchQuery, schedule_type: Option<ScheduleType>, found: Vec<ScheduleSearchResult>) -> (r: (ScheduleSearch, SearchAction))
    ensures
        after_found(query@, schedule_type, found@, r),
{
    if found.len() > 0 {
        (ScheduleSearch::Store { query, schedule_type }, SearchAction::StoreResults(found))
    } else {
        let read = SearchAction::ReadDatabase { query: query.duplicate(), schedule_type };
        (ScheduleSearch::Database { query, schedule_type }, read)
    }
}

/// One step of a search: from where it stands and what the last action brought, to where it
/// stands next and what to do. The query is checked; a cached answer is returned as it is;
/// otherwise the server is asked (for groups, then persons, when no type is given; a failed
/// request adds nothing), what it found is stored, and the database's matches are ranked,
/// cached and returned. A failure of the database fails the search.
pub fn schedule_search_step(state: ScheduleSearch, event: SearchEvent) -> (r: (ScheduleSearch, SearchAction))
    ensures
        // a search: the query is checked, then the cache is read
        state matches ScheduleSearch::Start { query, schedule_type } ==> (event is Begin ==> match search_query_spec(query@) {
            Err(e) => r matches (ScheduleSearch::Finished, SearchAction::Fail(error)) && error@ == e,
            Ok(q) => r matches (ScheduleSearch::Cache { query: q2, schedule_type: t2 }, SearchAction::ReadCache { query: q3, schedule_type: t3 })
                && q2@ == q && q3@ == q && t2 == schedule_type && t3 == schedule_type,
        }),
        // a cached answer is returned; without one the server is asked
        state matches ScheduleSearch::Cache { query, schedule_type } ==> (event matches SearchEvent::Cached(found) ==> match found {
            Some(v) => r matches (ScheduleSearch::Finished, SearchAction::Return(x)) && x == v,
            None => match schedule_type {
                Some(t) => r matches (ScheduleSearch::Remote { query: q2, schedule_type: t2 }, SearchAction::SearchRemote { query: q3, schedule_type: t3 })
                    && q2@ == query@ && q3@ == query@ && t2 == t && t3 == t,
                None => r matches (ScheduleSearch::Groups { query: q2 }, SearchAction::SearchRemote { query: q3, schedule_type: t3 })
                    && q2@ == query@ && q3@ == query@ && t3 == ScheduleType::Group,
            },
        }),
        // the server's answer for one type
        state matches ScheduleSearch::Remote { query, schedule_type } ==> (event matches SearchEvent::Found(answer) ==>
            after_found(query@, Some(schedule_type), match answer { Ok(v) => v@, Err(_) => Seq::empty() }, r)),
        // the groups; then the persons are asked for
        state matches ScheduleSearch::Groups { query } ==> (event matches SearchEvent::Found(answer) ==>
            r matches (ScheduleSearch::Persons { query: q2, groups }, SearchAction::SearchRemote { query: q3, schedule_type: t3 })
                && q2@ == query@ && q3@ == query@ && t3 == ScheduleType::Person
                && groups == match answer { Ok(v) => Some(v), Err(_) => None::<Vec<ScheduleSearchResult>> }),
        // the persons: groups, then persons, as far as the server answered
        state matches ScheduleSearch::Persons { query, groups } ==> (event matches SearchEvent::Found(answer) ==>
            after_found(query@, None,
                (match groups { Some(g) => g@, None => Seq::empty() }) + (match answer { Ok(p) => p@, Err(_) => Seq::empty() }), r)),
        // stored: the database is read; a failure fails the search
        state matches ScheduleSearch::Store { query, schedule_type } ==> (event matches SearchEvent::Stored(done) ==> match done {
            Ok(()) => r matches (ScheduleSearch::Database { query: q2, schedule_type: t2 }, SearchAction::ReadDatabase { query: q3, schedule_type: t3 })
                && q2@ == query@ && q3@ == query@ && t2 == schedule_type && t3 == schedule_type,
            Err(e) => r matches (ScheduleSearch::Finished, SearchAction::Fail(error)) && error == e,
        }),
        // the database's matches are ranked, cached and returned
        state matches ScheduleSearch::Database { query, schedule_type } ==> (event matches SearchEvent::Loaded(loaded) ==> match loaded {
            Ok(v) => r matches (ScheduleSearch::Finished, SearchAction::CacheAndReturn { query: q2, schedule_type: t2, results })
                && q2@ == query@ && t2 == schedule_type && ranked(v@, query@, results@),
            Err(e) => r matches (ScheduleSearch::Finished, SearchAction::Fail(error)) && error == e,
        }),
        // any other event ends the search with an internal error
        !((state is Start && event is Begin)
            || (state is Cache && event is Cached)
            || (state is Remote && event is Found)
            || (state is Groups && event is Found)
            || (state is Persons && event is Found)
            || (state is Store && event is Stored)
            || (state is Database && event is Loaded)) ==>
            (r matches (ScheduleSearch::Finished, SearchAction::Fail(error))
                && error@ == error_spec(ErrorKind::Internal, "Unexpected event while searching"@)),
{
    match (state, event) {
        (ScheduleSearch::Start { query, schedule_type }, SearchEvent::Begin) => {
            match ScheduleSearchQuery::new(query) {
                Err(error) => (ScheduleSearch::Finished, SearchAction::Fail(error)),
                Ok(q) => {
                    let read = SearchAction::ReadCache { query: q.duplicate(), schedule_type };
                    (ScheduleSearch::Cache { query: q, schedule_type }, read)
                },
            }
        },
        (ScheduleSearch::Cache { query, schedule_type }, SearchEvent::Cached(found)) => {
            match found {
                Some(v) => (ScheduleSearch::Finished, SearchAction::Return(v)),
                None => match schedule_type {
                    Some(t) => {
                        let ask = SearchAction::SearchRemote { query: query.duplicate(), schedule_type: t };
                        (ScheduleSearch::Remote { query, schedule_type: t }, ask)
                    },
                    None => {
                        let ask = SearchAction::SearchRemote { query: query.duplicate(), schedule_type: ScheduleType::Group };
                        (ScheduleSearch::Groups { query }, ask)
                    },
                },
            }
        },
        (ScheduleSearch::Remote { query, schedule_type }, SearchEvent::Found(answer)) => {
            let found = match answer {
                Ok(v) => v,
                Err(_) => Vec::new(),
            };
            found_next(query, Some(schedule_type), found)
        },
        (ScheduleSearch::Groups { query }, SearchEvent::Found(answer)) => {
            let groups = match answer {
                Ok(v) => Some(v),
                Err(_) => None,
            };
            let ask = SearchAction::SearchRemote { query: query.duplicate(), schedule_type: ScheduleType::Person };
            (ScheduleSearch::Persons { query, groups }, ask)
        },
        (ScheduleSearch::Persons { query, groups }, SearchEvent::Found(answer)) => {
            let persons = match answer {
                Ok(v) => Some(v),
                Err(_) => None,
            };
            found_next(query, None, combine_search_results(groups, persons))
        },
        (ScheduleSearch::Store { query, schedule_type }, SearchEvent::Stored(done)) => {
            match done {
                Ok(()) => {
                    let read = SearchAction::ReadDatabase { query: query.duplicate(), schedule_type };
                    (ScheduleSearch::Database { query, schedule_type }, read)
                },
                Err(error) => (ScheduleSearch::Finished, SearchAction::Fail(error)),
            }
        },
        (ScheduleSearch::Database { query, schedule_type }, SearchEvent::Loaded(loaded)) => {
            match loaded {
                Ok(v) => {
                    let results = rank_search_results(&v, query.as_str());
                    (ScheduleSearch::Finished, SearchAction::CacheAndReturn { query, schedule_type, results })
                },
                Err(error) => (ScheduleSearch::Finished, SearchAction::Fail(error)),
            }
        },
        _ => (ScheduleSearch::Finished, SearchAction::Fail(CommonError::internal("Unexpected event while searching"))),
    }
}

} // verus!
