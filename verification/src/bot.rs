//! Chat-bot logic: what a user's message asks for, and how the bot answers it.
use vstd::prelude::*;
use crate::calendar::{Date, Time, TimeDelta, iso_week_spec, add_days_spec, lemma_iso_week_range, moment, span_between};
use crate::errors::{error_spec, CommonError, CommonErrorView, ErrorKind};
use crate::models::{Classes, ClassesView, Day, DayView, Schedule, ScheduleSearchResult, ScheduleType, Week, WeekView, days_views, weeks_views, classes_views, results_views, SearchResultView};
use crate::pattern::{match_spec, replace_spec, test_match, replace_all};
use crate::text::{lowercase, str_equals, to_lowercase, trim, trim_spec};

verus! {

/// A chat partner of the bot, as the bot's database stores it.
#[derive(Debug)]
pub struct Peer {
    pub id: i64,
    pub selected_schedule: String,
    pub selected_schedule_type: ScheduleType,
    pub selecting_schedule: bool,
}

impl Peer {
    /// The peer has not chosen a schedule yet.
    pub open spec fn not_started(&self) -> bool {
        self.selected_schedule@.len() == 0
    }

    pub fn is_not_started(&self) -> (r: bool)
        ensures
            r == self.not_started(),
    {
        self.selected_schedule.as_str().unicode_len() == 0
    }
}

/// The messenger a peer writes from, with the peer's id there.
#[derive(Clone, Copy, PartialEq, Eq, Structural, Debug)]
pub enum PlatformId {
    Telegram(i64),
    Vk(i64),
}

impl PlatformId {
    /// The platform's name as the database stores it, and the id.
    pub fn platform_and_id(&self) -> (r: (&'static str, i64))
        ensures
            r.0@ == (match self { PlatformId::Telegram(_) => "telegram"@, PlatformId::Vk(_) => "vk"@ }),
            r.1 == (match self { PlatformId::Telegram(id) => *id, PlatformId::Vk(id) => *id }),
    {
        match self {
            PlatformId::Telegram(id) => ("telegram", *id),
            PlatformId::Vk(id) => ("vk", *id),
        }
    }
}

/// Input actions for the bot.
#[derive(Debug, PartialEq, Eq)]
pub enum UserAction {
    /// The user just started talking to the bot and sent the "Start" command.
    Start,
    /// The user asked for the whole schedule of a week.
    WeekWithOffset(i8),
    /// The user asked for the schedule of a day.
    DayWithOffset(i8),
    /// The user asked to change the schedule.
    ChangeScheduleIntent,
    /// The user asked for the upcoming classes.
    UpcomingEvents,
    /// The user asked for help.
    Help,
    /// Any other text, perhaps the name of a schedule to switch to.
    Unknown(String),
}

/// Abstract value of a [UserAction].
pub enum ActionView {
    Start,
    WeekWithOffset(i8),
    DayWithOffset(i8),
    ChangeScheduleIntent,
    UpcomingEvents,
    Help,
    Unknown(Seq<char>),
}

impl View for UserAction {
    type V = ActionView;

    open spec fn view(&self) -> ActionView {
        match self {
            UserAction::Start => ActionView::Start,
            UserAction::WeekWithOffset(o) => ActionView::WeekWithOffset(*o),
            UserAction::DayWithOffset(o) => ActionView::DayWithOffset(*o),
            UserAction::ChangeScheduleIntent => ActionView::ChangeScheduleIntent,
            UserAction::UpcomingEvents => ActionView::UpcomingEvents,
            UserAction::Help => ActionView::Help,
            UserAction::Unknown(s) => ActionView::Unknown(s@),
        }
    }
}

/// Abstract value of the outcome of reading a message.
pub open spec fn action_outcome(r: Result<UserAction, CommonError>) -> Result<ActionView, CommonErrorView> {
    match r {
        Ok(a) => Ok(a@),
        Err(e) => Err(e@),
    }
}

/// Mentions of the bot: `[id|name]` tags and `@name` handles, each with an optional comma.
pub const MENTIONS_PATTERN: &'static str = r"(\[.*\],?)|(@\w+,?)";

/// Days of the week from Monday to Saturday, optionally after "пары в"; the prefix binds to
/// the first name only, and the match may lie anywhere in the text.
pub const DAY_OF_WEEK_PATTERN: &'static str = r"(пар[ыау]\s+)?((в|во)\s+)?пн|понедельник|mon|monday|вт|вторник|tue|tuesday|ср|среда|wed|wednesday|чт|четверг|thu|thursday|пт|пятница|fri|friday|сб|суббота|sat|saturday";

/// Days relative to today, optionally next to "пары" or "день"; the match may lie anywhere
/// in the text.
pub const REL_DAY_PATTERN: &'static str = r"(((пар[ыау])?(день)?\s+)?Послепослезавтра|Послепослезавтрашние|Послепослезавтрашний|Послезавтра|Послезавтрашние|Послезавтрашний|Завтра|Завтрашние|Завтрашний|/tomorrow|Сегодня|Сегодняшние|Сегодняшний|/today|Вчера|Вчерашние|Вчерашний|/yesterday|Позавчера|Позавчерашние|Позавчерашний|Позапозавчера|Позапозавчерашние|Позапозавчерашний)|(Послепослезавтра|Послепослезавтрашние|Послепослезавтрашний|Послезавтра|Послезавтрашние|Послезавтрашний|Завтра|Завтрашние|Завтрашний|/tomorrow|Сегодня|Сегодняшние|Сегодняшний|/today|Вчера|Вчерашние|Вчерашний|/yesterday|Позавчера|Позавчерашние|Позавчерашний|Позапозавчера|Позапозавчерашние|Позапозавчерашний(\s+(пар[ыау])?(день)?)?)";

/// The action of a fixed command.
pub open spec fn command_spec(t: Seq<char>) -> Option<ActionView> {
    if t == "старт"@ || t == "начать"@ || t == "start"@ || t == "/start"@ {
        Some(ActionView::Start)
    } else if t == "статус"@ || t == "ближайшие пары"@ || t == "ближайшие"@ || t == "status"@ || t == "/status"@ {
        Some(ActionView::UpcomingEvents)
    } else if t == "помощь"@ || t == "справка"@ || t == "помоги"@ || t == "help"@ || t == "/help"@ {
        Some(ActionView::Help)
    } else if t == "сменить"@ || t == "сменить группу"@ || t == "сменить расписание"@ || t == "change"@ || t == "/change"@ {
        Some(ActionView::ChangeScheduleIntent)
    } else if t == "эта неделя"@ || t == "/thisweek"@ {
        Some(ActionView::WeekWithOffset(0))
    } else if t == "следующая неделя"@ || t == "/nextweek"@ {
        Some(ActionView::WeekWithOffset(1))
    } else {
        None
    }
}

/// The day of the week (1 for Monday) that `t` names exactly.
pub open spec fn day_of_week_of_name(t: Seq<char>) -> Option<int> {
    if t == "пн"@ || t == "понедельник"@ || t == "mon"@ || t == "monday"@ {
        Some(1)
    } else if t == "вт"@ || t == "вторник"@ || t == "tue"@ || t == "tuesday"@ {
        Some(2)
    } else if t == "ср"@ || t == "среда"@ || t == "wed"@ || t == "wednesday"@ {
        Some(3)
    } else if t == "чт"@ || t == "четверг"@ || t == "thu"@ || t == "thursday"@ {
        Some(4)
    } else if t == "пт"@ || t == "пятница"@ || t == "fri"@ || t == "friday"@ {
        Some(5)
    } else if t == "сб"@ || t == "суббота"@ || t == "sat"@ || t == "saturday"@ {
        Some(6)
    } else {
        None
    }
}

/// The offset in days from today that `t` names exactly.
pub open spec fn rel_day_of_name(t: Seq<char>) -> Option<int> {
    if t == "Послепослезавтра"@ || t == "Послепослезавтрашние"@ || t == "Послепослезавтрашний"@ {
        Some(3)
    } else if t == "Послезавтра"@ || t == "Послезавтрашние"@ || t == "Послезавтрашний"@ {
        Some(2)
    } else if t == "Завтра"@ || t == "Завтрашние"@ || t == "Завтрашний"@ || t == "/tomorrow"@ {
        Some(1)
    } else if t == "Сегодня"@ || t == "Сегодняшние"@ || t == "Сегодняшний"@ || t == "/today"@ {
        Some(0)
    } else if t == "Вчера"@ || t == "Вчерашние"@ || t == "Вчерашний"@ || t == "/yesterday"@ {
        Some(-1)
    } else if t == "Позавчера"@ || t == "Позавчерашние"@ || t == "Позавчерашний"@ {
        Some(-2)
    } else if t == "Позапозавчера"@ || t == "Позапозавчерашние"@ || t == "Позапозавчерашний"@ {
        Some(-3)
    } else {
        None
    }
}

/// Days from the current day of the week to the next `requested` one (0 for today).
pub open spec fn weekday_offset(current: int, requested: int) -> int {
    if current == requested {
        0
    } else if current < requested {
        requested - current
    } else {
        requested + 7 - current
    }
}

/// Message of the error given when a pattern of this module does not compile.
pub open spec fn bad_pattern_message() -> Seq<char> {
    "Invalid message pattern"@
}

/// What a message, cleared of mentions, trimmed and lower-cased, asks for; the two flags tell
/// whether the day-of-week and the relative-day patterns match it (`None`: the pattern does
/// not compile).
pub open spec fn cleared_action_spec(
    cleared: Seq<char>,
    day_of_week_match: Option<bool>,
    rel_day_match: Option<bool>,
    current_weekday: int,
) -> Result<ActionView, CommonErrorView> {
    match command_spec(cleared) {
        Some(a) => Ok(a),
        None => match day_of_week_match {
            None => Err(error_spec(ErrorKind::Internal, bad_pattern_message())),
            Some(true) => match day_of_week_of_name(cleared) {
                None => Err(error_spec(ErrorKind::Internal,
                    "Error: text present in pattern but absent in map (day of week)"@)),
                Some(d) => Ok(ActionView::DayWithOffset(weekday_offset(current_weekday, d) as i8)),
            },
            Some(false) => match rel_day_match {
                None => Err(error_spec(ErrorKind::Internal, bad_pattern_message())),
                Some(true) => match rel_day_of_name(cleared) {
                    None => Err(error_spec(ErrorKind::Internal,
                        "Error: text present in pattern but absent in map (rel day ptr)"@)),
                    Some(o) => Ok(ActionView::DayWithOffset(o as i8)),
                },
                Some(false) => Ok(ActionView::Unknown(cleared)),
            },
        },
    }
}

/// The text a message is read as: mentions removed, trimmed, lower-cased.
pub open spec fn cleared_text_spec(text: Seq<char>) -> Option<Seq<char>> {
    match replace_spec(MENTIONS_PATTERN@, text, ""@) {
        None => None,
        Some(t) => Some(lowercase(trim_spec(t))),
    }
}

/// What the message `text` asks for, on a day of the week `current_weekday` (1 for Monday).
pub open spec fn text_action_spec(text: Seq<char>, current_weekday: int) -> Result<ActionView, CommonErrorView> {
    match cleared_text_spec(text) {
        None => Err(error_spec(ErrorKind::Internal, bad_pattern_message())),
        Some(cleared) => cleared_action_spec(
            cleared,
            match_spec(DAY_OF_WEEK_PATTERN@, cleared),
            match_spec(REL_DAY_PATTERN@, cleared),
            current_weekday,
        ),
    }
}

fn command_of(t: &str) -> (r: Option<UserAction>)
    ensures
        match r {
            Some(a) => command_spec(t@) == Some(a@),
            None => command_spec(t@) is None,
        },
{
    if str_equals(t, "старт") || str_equals(t, "начать") || str_equals(t, "start") || str_equals(t, "/start") {
        Some(UserAction::Start)
    } else if str_equals(t, "статус") || str_equals(t, "ближайшие пары") || str_equals(t, "ближайшие")
        || str_equals(t, "status") || str_equals(t, "/status") {
        Some(UserAction::UpcomingEvents)
    } else if str_equals(t, "помощь") || str_equals(t, "справка") || str_equals(t, "помоги")
        || str_equals(t, "help") || str_equals(t, "/help") {
        Some(UserAction::Help)
    } else if str_equals(t, "сменить") || str_equals(t, "сменить группу") || str_equals(t, "сменить расписание")
        || str_equals(t, "change") || str_equals(t, "/change") {
        Some(UserAction::ChangeScheduleIntent)
    } else if str_equals(t, "эта неделя") || str_equals(t, "/thisweek") {
        Some(UserAction::WeekWithOffset(0))
    } else if str_equals(t, "следующая неделя") || str_equals(t, "/nextweek") {
        Some(UserAction::WeekWithOffset(1))
    } else {
        None
    }
}

fn day_of_week_of(t: &str) -> (r: Option<u32>)
    ensures
        match r {
            Some(d) => day_of_week_of_name(t@) == Some(d as int),
            None => day_of_week_of_name(t@) is None,
        },
{
    if str_equals(t, "пн") || str_equals(t, "понедельник") || str_equals(t, "mon") || str_equals(t, "monday") {
        Some(1)
    } else if str_equals(t, "вт") || str_equals(t, "вторник") || str_equals(t, "tue") || str_equals(t, "tuesday") {
        Some(2)
    } else if str_equals(t, "ср") || str_equals(t, "среда") || str_equals(t, "wed") || str_equals(t, "wednesday") {
        Some(3)
    } else if str_equals(t, "чт") || str_equals(t, "четверг") || str_equals(t, "thu") || str_equals(t, "thursday") {
        Some(4)
    } else if str_equals(t, "пт") || str_equals(t, "пятница") || str_equals(t, "fri") || str_equals(t, "friday") {
        Some(5)
    } else if str_equals(t, "сб") || str_equals(t, "суббота") || str_equals(t, "sat") || str_equals(t, "saturday") {
        Some(6)
    } else {
        None
    }
}

fn rel_day_of(t: &str) -> (r: Option<i8>)
    ensures
        match r {
            Some(o) => rel_day_of_name(t@) == Some(o as int),
            None => rel_day_of_name(t@) is None,
        },
{
    if str_equals(t, "Послепослезавтра") || str_equals(t, "Послепослезавтрашние") || str_equals(t, "Послепослезавтрашний") {
        Some(3)
    } else if str_equals(t, "Послезавтра") || str_equals(t, "Послезавтрашние") || str_equals(t, "Послезавтрашний") {
        Some(2)
    } else if str_equals(t, "Завтра") || str_equals(t, "Завтрашние") || str_equals(t, "Завтрашний") || str_equals(t, "/tomorrow") {
        Some(1)
    } else if str_equals(t, "Сегодня") || str_equals(t, "Сегодняшние") || str_equals(t, "Сегодняшний") || str_equals(t, "/today") {
        Some(0)
    } else if str_equals(t, "Вчера") || str_equals(t, "Вчерашние") || str_equals(t, "Вчерашний") || str_equals(t, "/yesterday") {
        Some(-1)
    } else if str_equals(t, "Позавчера") || str_equals(t, "Позавчерашние") || str_equals(t, "Позавчерашний") {
        Some(-2)
    } else if str_equals(t, "Позапозавчера") || str_equals(t, "Позапозавчерашние") || str_equals(t, "Позапозавчерашний") {
        Some(-3)
    } else {
        None
    }
}

/// The day of the week today, 1 for Monday to 7 for Sunday, read with
/// `chrono::Local::now().weekday().number_from_monday()`, which is documented to lie in `1..=7`.
#[verifier::external_body]
fn current_weekday() -> (r: u32)
    ensures
        1 <= r <= 7,
{
    chrono::Datelike::weekday(&chrono::Local::now()).number_from_monday()
}

/// Determines the [UserAction] from the text sent by a user.
#[derive(Clone, Copy, Debug)]
pub struct TextToActionUseCase;

impl TextToActionUseCase {
    /// What a message, already cleared of mentions, trimmed and lower-cased, asks for, given
    /// whether the day-of-week and the relative-day patterns match it.
    pub fn cleared_action(
        &self,
        cleared: &str,
        day_of_week_match: Option<bool>,
        rel_day_match: Option<bool>,
        current_weekday: u32,
    ) -> (r: Result<UserAction, CommonError>)
        requires
            1 <= current_weekday <= 7,
        ensures
            action_outcome(r) == cleared_action_spec(cleared@, day_of_week_match, rel_day_match, current_weekday as int),
    {
        match command_of(cleared) {
            Some(a) => return Ok(a),
            None => {},
        }
        match day_of_week_match {
            None => Err(CommonError::internal("Invalid message pattern")),
            Some(true) => match day_of_week_of(cleared) {
                None => Err(CommonError::internal("Error: text present in pattern but absent in map (day of week)")),
                Some(requested) => {
                    let offset: i8 = if current_weekday == requested {
                        0
                    } else if current_weekday < requested {
                        (requested - current_weekday) as i8
                    } else {
                        (requested + 7 - current_weekday) as i8
                    };
                    Ok(UserAction::DayWithOffset(offset))
                },
            },
            Some(false) => match rel_day_match {
                None => Err(CommonError::internal("Invalid message pattern")),
                Some(true) => match rel_day_of(cleared) {
                    None => Err(CommonError::internal("Error: text present in pattern but absent in map (rel day ptr)")),
                    Some(o) => Ok(UserAction::DayWithOffset(o)),
                },
                Some(false) => Ok(UserAction::Unknown(crate::text::copy_string(cleared))),
            },
        }
    }

    /// What the message `text` asks for when today is the day `current_weekday` of the week
    /// (1 for Monday).
    pub fn text_to_action_on(&self, text: &str, current_weekday: u32) -> (r: Result<UserAction, CommonError>)
        requires
            1 <= current_weekday <= 7,
        ensures
            action_outcome(r) == text_action_spec(text@, current_weekday as int),
    {
        let without_mentions = match replace_all(MENTIONS_PATTERN, text, "") {
            None => return Err(CommonError::internal("Invalid message pattern")),
            Some(t) => t,
        };
        let trimmed = trim(without_mentions.as_str());
        let cleared = to_lowercase(trimmed.as_str());
        let day_of_week_match = test_match(DAY_OF_WEEK_PATTERN, cleared.as_str());
        let rel_day_match = test_match(REL_DAY_PATTERN, cleared.as_str());
        self.cleared_action(cleared.as_str(), day_of_week_match, rel_day_match, current_weekday)
    }

    /// What the message `text` asks for, today.
    pub fn text_to_action(&self, text: &str) -> (r: Result<UserAction, CommonError>)
        ensures
            exists|d: int| 1 <= d <= 7 && action_outcome(r) == text_action_spec(text@, d),
    {
        let today = current_weekday();
        self.text_to_action_on(text, today)
    }
}

/// When the next classes start.
#[derive(Clone, Copy, PartialEq, Eq, Structural, Debug)]
pub enum TimePrediction {
    /// Today, after this span.
    WithinOneDay(TimeDelta),
    /// On `date`, after `duration`.
    WithinAWeek { date: Date, duration: TimeDelta },
}

/// What is coming up, as the dashboard shows it.
#[derive(Debug)]
#[allow(inconsistent_fields)]
pub enum UpcomingEventsPrediction {
    NoClassesNextWeek,
    ClassesTodayNotStarted { time_prediction: TimePrediction, future_classes: Vec<Classes> },
    ClassesTodayStarted { in_progress: Box<Classes>, future_classes: Option<Vec<Classes>> },
    ClassesInNDays { time_prediction: TimePrediction, future_classes: Vec<Classes> },
}

/// Abstract value of an [UpcomingEventsPrediction].
pub enum PredictionView {
    NoClassesNextWeek,
    ClassesTodayNotStarted(TimePrediction, Seq<ClassesView>),
    ClassesTodayStarted(ClassesView, Option<Seq<ClassesView>>),
    ClassesInNDays(TimePrediction, Seq<ClassesView>),
}

impl View for UpcomingEventsPrediction {
    type V = PredictionView;

    open spec fn view(&self) -> PredictionView {
        match self {
            UpcomingEventsPrediction::NoClassesNextWeek => PredictionView::NoClassesNextWeek,
            UpcomingEventsPrediction::ClassesTodayNotStarted { time_prediction, future_classes } =>
                PredictionView::ClassesTodayNotStarted(*time_prediction, classes_views(future_classes@)),
            UpcomingEventsPrediction::ClassesTodayStarted { in_progress, future_classes } =>
                PredictionView::ClassesTodayStarted((**in_progress)@, match future_classes {
                    Some(v) => Some(classes_views(v@)),
                    None => None,
                }),
            UpcomingEventsPrediction::ClassesInNDays { time_prediction, future_classes } =>
                PredictionView::ClassesInNDays(*time_prediction, classes_views(future_classes@)),
        }
    }
}

/// The reply to a message, before it is rendered as text.
#[derive(Debug)]
pub enum Reply {
    StartGreetings,
    AlreadyStarted { schedule_name: String },
    Week { week_offset: i8, week: Week, schedule_type: ScheduleType },
    Day { day_offset: i8, day: Day, schedule_type: ScheduleType },
    UpcomingEvents { prediction: UpcomingEventsPrediction, schedule_type: ScheduleType },
    ScheduleChangedSuccessfully(String),
    ScheduleSearchResults { schedule_name: String, results: Vec<String>, results_contains_person: bool },
    CannotFindSchedule(String),
    ReadyToChangeSchedule,
    ShowHelp,
    UnknownCommand,
    /// The reply to a message that is not text.
    UnknownMessageType,
    /// The reply given on an error.
    InternalError,
}

/// What the bot does next, given what a message asks for and who sent it.
#[derive(Debug)]
pub enum NextStep {
    /// Answer with the reply.
    Answer(Reply),
    /// Store the peer, then answer with the reply.
    SavePeerAndAnswer(Peer, Reply),
    /// Fetch the schedule of the week at this offset, then answer with [week_reply].
    FetchWeek(i8),
    /// Work out the day at this offset with [day_request], fetch its week, then answer with [day_reply].
    FetchDay(i8),
    /// Search schedules for the text, then answer with [search_reply].
    Search(String),
    /// Fetch this week's and next week's schedules, then answer with [upcoming_events_reply].
    FetchUpcomingEvents,
    /// Fail with the error.
    Fail(CommonError),
}

/// The reply that stands for a failure: an error of the user's making is answered as an
/// unknown command, any other as an internal error.
pub fn failure_reply(error: &CommonError) -> (r: Reply)
    ensures
        error@.kind == ErrorKind::User ==> r is UnknownCommand,
        error@.kind != ErrorKind::User ==> r is InternalError,
{
    match error.kind() {
        ErrorKind::User => Reply::UnknownCommand,
        _ => Reply::InternalError,
    }
}

/// A copy of a peer with another selection state.
pub open spec fn peer_selecting(p: Peer, q: Peer, selecting: bool) -> bool {
    &&& q.id == p.id
    &&& q.selected_schedule@ == p.selected_schedule@
    &&& q.selected_schedule_type == p.selected_schedule_type
    &&& q.selecting_schedule == selecting
}

/// Processes the start command: a new peer starts choosing a schedule; a peer with a
/// schedule is told so.
pub fn handle_start(peer: Peer) -> (r: NextStep)
    ensures
        peer.not_started() ==> (r matches NextStep::SavePeerAndAnswer(p, Reply::StartGreetings)
            && peer_selecting(peer, p, true)),
        !peer.not_started() ==> (r matches NextStep::Answer(Reply::AlreadyStarted { schedule_name })
            && schedule_name@ == peer.selected_schedule@),
{
    if peer.is_not_started() {
        NextStep::SavePeerAndAnswer(Peer { selecting_schedule: true, ..peer }, Reply::StartGreetings)
    } else {
        NextStep::Answer(Reply::AlreadyStarted { schedule_name: peer.selected_schedule })
    }
}

/// The message of the error for a text that is no command while no schedule is being chosen.
pub open spec fn unknown_command_message(text: Seq<char>) -> Seq<char> {
    "Unknown command: "@ + text
}

/// Decides what to do about a message that asks for `action`, sent as `text` by `peer`.
pub fn plan_reply(action: UserAction, peer: Peer, text: &str) -> (r: NextStep)
    ensures
        match action {
            UserAction::Start => peer.not_started() ==> (r matches NextStep::SavePeerAndAnswer(p, Reply::StartGreetings)
                && peer_selecting(peer, p, true)),
            UserAction::WeekWithOffset(o) => r == NextStep::FetchWeek(o),
            UserAction::DayWithOffset(o) => r == NextStep::FetchDay(o),
            UserAction::Unknown(q) => if peer.selecting_schedule || peer.not_started() {
                r matches NextStep::Search(s) && s@ == q@
            } else {
                r matches NextStep::Fail(e) && e@ == error_spec(ErrorKind::User, unknown_command_message(text@))
            },
            UserAction::ChangeScheduleIntent => r matches NextStep::SavePeerAndAnswer(p, Reply::ReadyToChangeSchedule)
                && peer_selecting(peer, p, true),
            UserAction::Help => r matches NextStep::Answer(Reply::ShowHelp),
            UserAction::UpcomingEvents => r matches NextStep::FetchUpcomingEvents,
        },
        (action matches UserAction::Start && !peer.not_started()) ==>
            (r matches NextStep::Answer(Reply::AlreadyStarted { schedule_name }) && schedule_name@ == peer.selected_schedule@),
{
    match action {
        UserAction::Start => handle_start(peer),
        UserAction::WeekWithOffset(o) => NextStep::FetchWeek(o),
        UserAction::DayWithOffset(o) => NextStep::FetchDay(o),
        UserAction::Unknown(q) => {
            if peer.selecting_schedule || peer.is_not_started() {
                NextStep::Search(q)
            } else {
                let mut message = String::new();
                crate::text::push_str(&mut message, "Unknown command: ");
                crate::text::push_str(&mut message, text);
                NextStep::Fail(CommonError::UserError(message))
            }
        },
        UserAction::ChangeScheduleIntent => {
            NextStep::SavePeerAndAnswer(Peer { selecting_schedule: true, ..peer }, Reply::ReadyToChangeSchedule)
        },
        UserAction::Help => NextStep::Answer(Reply::ShowHelp),
        UserAction::UpcomingEvents => NextStep::FetchUpcomingEvents,
    }
}

/// Answers with the first week of the schedule fetched for a week offset.
pub fn week_reply(schedule: Schedule, offset: i8) -> (r: Result<Reply, CommonError>)
    ensures
        schedule.weeks@.len() == 0 ==> (r matches Err(e)
            && e@ == error_spec(ErrorKind::Internal, "Schedule does not have week"@)),
        schedule.weeks@.len() > 0 ==> (r matches Ok(Reply::Week { week_offset, week, schedule_type })
            && week_offset == offset && week@ == schedule.weeks@[0]@
            && schedule_type == schedule.schedule_type),
{
    let schedule_type = schedule.schedule_type;
    let mut weeks = schedule.weeks;
    if weeks.len() == 0 {
        return Err(CommonError::internal("Schedule does not have week"));
    }
    let week = weeks.remove(0);
    Ok(Reply::Week { week_offset: offset, week, schedule_type })
}

/// The day `offset` days from `today`, with the offset in weeks from today's week to its
/// week (by ISO week number); an error where that day lies outside the calendar's range.
pub fn day_request(today: Date, offset: i8) -> (r: Result<(Date, i8), CommonError>)
    requires
        today.wf(),
        offset != i8::MIN,
    ensures
        match add_days_spec(today, offset as int) {
            Some(d) => r matches Ok((date, week_offset)) && date == d
                && week_offset == iso_week_spec(d) - iso_week_spec(today),
            None => r matches Err(e) && e@ == error_spec(ErrorKind::User, "Invalid day offset"@),
        },
{
    let selected = match today.add_days(offset as i32) {
        Some(d) => d,
        None => return Err(CommonError::user("Invalid day offset")),
    };
    proof {
        lemma_iso_week_range(selected);
        lemma_iso_week_range(today);
    }
    let week_offset = selected.iso_week() as i8 - today.iso_week() as i8;
    Ok((selected, week_offset))
}

/// The first of `days` on `date`.
pub open spec fn find_day_in_days(days: Seq<DayView>, date: Date) -> Option<DayView>
    decreases days.len(),
{
    if days.len() == 0 {
        None
    } else if days[0].date == date {
        Some(days[0])
    } else {
        find_day_in_days(days.skip(1), date)
    }
}

/// The first day on `date` of the weeks, in order.
pub open spec fn find_day(weeks: Seq<WeekView>, date: Date) -> Option<DayView>
    decreases weeks.len(),
{
    if weeks.len() == 0 {
        None
    } else {
        match find_day_in_days(weeks[0].days, date) {
            Some(d) => Some(d),
            None => find_day(weeks.skip(1), date),
        }
    }
}

fn find_in_days(days: &Vec<Day>, date: Date) -> (r: Option<usize>)
    ensures
        match r {
            Some(j) => j < days@.len() && find_day_in_days(days_views(days@), date) == Some(days@[j as int]@),
            None => find_day_in_days(days_views(days@), date) is None,
        },
{
    let ghost dv = days_views(days@);
    let mut j: usize = 0;
    assert(dv.skip(0) =~= dv);
    while j < days.len()
        invariant
            j <= days@.len(),
            dv == days_views(days@),
            find_day_in_days(dv, date) == find_day_in_days(dv.skip(j as int), date),
        decreases days@.len() - j,
    {
        let ghost rest = dv.skip(j as int);
        assert(rest[0] == days@[j as int]@);
        assert(rest.skip(1) =~= dv.skip(j + 1));
        if days[j].date == date {
            return Some(j);
        }
        j = j + 1;
    }
    assert(dv.skip(j as int).len() == 0);
    None
}

/// Answers with the day on `selected` of the schedule fetched for its week, or with a day
/// without classes where the schedule has no such day.
pub fn day_reply(schedule: &Schedule, selected: Date, offset: i8) -> (r: Reply)
    requires
        selected.wf(),
    ensures
        r matches Reply::Day { day_offset, day, schedule_type } && day_offset == offset
            && schedule_type == schedule.schedule_type
            && day@ == (match find_day(weeks_views(schedule.weeks@), selected) {
                Some(d) => d,
                None => DayView { day_of_week: selected.weekday_spec() as u8, date: selected, classes: Seq::empty() },
            }),
{
    let ghost wv = weeks_views(schedule.weeks@);
    let mut i: usize = 0;
    assert(wv.skip(0) =~= wv);
    while i < schedule.weeks.len()
        invariant
            i <= schedule.weeks@.len(),
            wv == weeks_views(schedule.weeks@),
            find_day(wv, selected) == find_day(wv.skip(i as int), selected),
        decreases schedule.weeks@.len() - i,
    {
        let ghost rest = wv.skip(i as int);
        assert(rest[0] == schedule.weeks@[i as int]@);
        assert(rest.skip(1) =~= wv.skip(i + 1));
        match find_in_days(&schedule.weeks[i].days, selected) {
            Some(j) => {
                let day = schedule.weeks[i].days[j].duplicate();
                return Reply::Day { day_offset: offset, day, schedule_type: schedule.schedule_type };
            },
            None => {},
        }
        i = i + 1;
    }
    assert(wv.skip(i as int).len() == 0);
    let day_of_week = selected.weekday_from_monday() as u8;
    let day = Day { day_of_week, date: selected, classes: Vec::new() };
    proof {
        assert(classes_views(day.classes@) =~= Seq::<ClassesView>::empty());
    }
    Reply::Day { day_offset: offset, day, schedule_type: schedule.schedule_type }
}

/// Index of the first result whose name, lower-cased, is the query.
pub open spec fn candidate_index(results: Seq<SearchResultView>, query: Seq<char>) -> Option<int> {
    if exists|i: int| 0 <= i < results.len() && lowercase(results[i].name) == query {
        Some(choose|i: int| 0 <= i < results.len() && lowercase(results[i].name) == query
            && forall|j: int| 0 <= j < i ==> lowercase(#[trigger] results[j].name) != query)
    } else {
        None
    }
}

/// Number of results offered when none matches the query exactly.
pub const OFFERED_RESULTS: usize = 3;

/// The names of the first results offered.
pub open spec fn offered_names(results: Seq<SearchResultView>) -> Seq<Seq<char>> {
    results.take(if results.len() < OFFERED_RESULTS { results.len() as int } else { OFFERED_RESULTS as int })
        .map_values(|r: SearchResultView| r.name)
}

/// Whether one of the offered results is a person's schedule.
pub open spec fn offered_contains_person(results: Seq<SearchResultView>) -> bool {
    exists|i: int| 0 <= i < results.len() && i < OFFERED_RESULTS
        && results[i].schedule_type == ScheduleType::Person
}

/// Answers a search for the schedule `query` that `peer` asked to switch to: switch to the
/// first result named so (ignoring case), else offer the first results, else report failure.
pub fn search_reply(peer: Peer, query: &str, results: &Vec<ScheduleSearchResult>) -> (r: NextStep)
    ensures
        match candidate_index(results_views(results@), query@) {
            Some(i) => r matches NextStep::SavePeerAndAnswer(p, Reply::ScheduleChangedSuccessfully(name))
                && name@ == results@[i].name@
                && p.id == peer.id && p.selected_schedule@ == results@[i].name@
                && p.selected_schedule_type == results@[i].schedule_type && !p.selecting_schedule,
            None => if results@.len() > 0 {
                r matches NextStep::Answer(Reply::ScheduleSearchResults { schedule_name, results: names, results_contains_person })
                    && schedule_name@ == query@
                    && names@.map_values(|n: String| n@) == offered_names(results_views(results@))
                    && results_contains_person == offered_contains_person(results_views(results@))
            } else {
                r matches NextStep::Answer(Reply::CannotFindSchedule(q)) && q@ == query@
            },
        },
{
    let ghost rv = results_views(results@);
    let mut i: usize = 0;
    while i < results.len()
        invariant
            i <= results@.len(),
            rv == results_views(results@),
            forall|j: int| 0 <= j < i ==> lowercase(#[trigger] rv[j].name) != query@,
        decreases results@.len() - i,
    {
        let lowered = to_lowercase(results[i].name.as_str());
        if str_equals(lowered.as_str(), query) {
            proof {
                assert(rv[i as int].name == results@[i as int].name@);
                let c = choose|k: int| 0 <= k < rv.len() && lowercase(rv[k].name) == query@
                    && forall|j: int| 0 <= j < k ==> lowercase(#[trigger] rv[j].name) != query@;
                assert(lowercase(rv[i as int].name) == query@);
                if c < i {
                    assert(lowercase(rv[c].name) != query@);
                }
                if c > i {
                    assert(lowercase(rv[i as int].name) != query@);
                }
            }
            let name = crate::text::copy_string(results[i].name.as_str());
            let selected = crate::text::copy_string(results[i].name.as_str());
            let p = Peer {
                id: peer.id,
                selected_schedule: selected,
                selected_schedule_type: results[i].schedule_type,
                selecting_schedule: false,
            };
            return NextStep::SavePeerAndAnswer(p, Reply::ScheduleChangedSuccessfully(name));
        }
        i = i + 1;
    }
    if results.len() == 0 {
        return NextStep::Answer(Reply::CannotFindSchedule(crate::text::copy_string(query)));
    }
    let n: usize = if results.len() < OFFERED_RESULTS { results.len() } else { OFFERED_RESULTS };
    let mut names: Vec<String> = Vec::new();
    let mut contains_person = false;
    let mut k: usize = 0;
    while k < n
        invariant
            k <= n,
            n <= results@.len(),
            n == (if results@.len() < OFFERED_RESULTS { results@.len() } else { OFFERED_RESULTS as nat }),
            rv == results_views(results@),
            names@.len() == k,
            forall|j: int| 0 <= j < k ==> #[trigger] names@[j]@ == rv[j].name,
            contains_person <==> exists|j: int| 0 <= j < k && rv[j].schedule_type == ScheduleType::Person,
        decreases n - k,
    {
        assert(rv[k as int] == results@[k as int]@);
        names.push(crate::text::copy_string(results[k].name.as_str()));
        if results[k].schedule_type == ScheduleType::Person {
            contains_person = true;
        }
        proof {
            if contains_person {
                if rv[k as int].schedule_type == ScheduleType::Person {
                    assert(0 <= k < k + 1 && rv[k as int].schedule_type == ScheduleType::Person);
                }
            } else {
                assert forall|j: int| 0 <= j < k + 1 implies rv[j].schedule_type != ScheduleType::Person by {
                    if j < k {
                        assert(!(0 <= j < k && rv[j].schedule_type == ScheduleType::Person));
                    }
                }
            }
        }
        k = k + 1;
    }
    proof {
        assert(names@.map_values(|s: String| s@) =~= offered_names(rv));
        if offered_contains_person(rv) {
            let j = choose|j: int| 0 <= j < rv.len() && j < OFFERED_RESULTS && rv[j].schedule_type == ScheduleType::Person;
            assert(j < n);
        }
    }
    NextStep::Answer(Reply::ScheduleSearchResults {
        schedule_name: crate::text::copy_string(query),
        results: names,
        results_contains_person: contains_person,
    })
}

/// A day is still to come at `date` `time`: today while some of its classes has not ended,
/// any later day.
pub open spec fn day_is_upcoming(d: DayView, date: Date, time: Time) -> bool {
    if d.date == date {
        exists|i: int| 0 <= i < d.classes.len() && time.earlier(#[trigger] d.classes[i].time.end)
    } else {
        date.before(d.date)
    }
}

/// Index of the first day still to come.
pub open spec fn first_upcoming(days: Seq<DayView>, date: Date, time: Time) -> Option<int> {
    if exists|k: int| 0 <= k < days.len() && day_is_upcoming(days[k], date, time) {
        Some(choose|k: int| 0 <= k < days.len() && day_is_upcoming(days[k], date, time)
            && forall|j: int| 0 <= j < k ==> !day_is_upcoming(#[trigger] days[j], date, time))
    } else {
        None
    }
}

/// Classes under way at `time`.
pub open spec fn in_progress_at(c: ClassesView, time: Time) -> bool {
    c.time.start.earlier(time) && time.earlier(c.time.end)
}

/// Index of the first classes under way at `time`.
pub open spec fn first_in_progress(classes: Seq<ClassesView>, time: Time) -> Option<int> {
    if exists|i: int| 0 <= i < classes.len() && in_progress_at(classes[i], time) {
        Some(choose|i: int| 0 <= i < classes.len() && in_progress_at(classes[i], time)
            && forall|j: int| 0 <= j < i ==> !in_progress_at(#[trigger] classes[j], time))
    } else {
        None
    }
}

/// The classes that start after `time`, in order.
pub open spec fn classes_after(classes: Seq<ClassesView>, time: Time) -> Seq<ClassesView>
    decreases classes.len(),
{
    if classes.len() == 0 {
        Seq::empty()
    } else {
        let rest = classes_after(classes.drop_last(), time);
        if time.earlier(classes.last().time.start) { rest.push(classes.last()) } else { rest }
    }
}

/// The forecast never reaches for classes that are not there: where today is the first day
/// to come and nothing is under way, some classes start later today; a later first day to
/// come has classes.
pub open spec fn prediction_defined(days: Seq<DayView>, date: Date, time: Time) -> bool {
    match first_upcoming(days, date, time) {
        None => true,
        Some(k) => if days[k].date == date {
            first_in_progress(days[k].classes, time) is Some || classes_after(days[k].classes, time).len() > 0
        } else {
            days[k].classes.len() > 0
        },
    }
}

/// All dates and times of the days are valid.
pub open spec fn days_wf(days: Seq<DayView>) -> bool {
    forall|k: int| 0 <= k < days.len() ==> {
        &&& (#[trigger] days[k]).date.wf()
        &&& forall|i: int| 0 <= i < days[k].classes.len() ==>
            (#[trigger] days[k].classes[i]).time.start.wf() && days[k].classes[i].time.end.wf()
    }
}

/// What comes up after `date` `time`, given the coming days in order.
pub open spec fn prediction_spec(days: Seq<DayView>, date: Date, time: Time) -> PredictionView {
    match first_upcoming(days, date, time) {
        None => PredictionView::NoClassesNextWeek,
        Some(k) => {
            let day = days[k];
            if day.date == date {
                let future = classes_after(day.classes, time);
                match first_in_progress(day.classes, time) {
                    Some(i) => PredictionView::ClassesTodayStarted(
                        day.classes[i],
                        if future.len() == 0 { None } else { Some(future) },
                    ),
                    None => PredictionView::ClassesTodayNotStarted(
                        TimePrediction::WithinOneDay(TimeDelta {
                            nanos: (future[0].time.start.total_nanos() - time.total_nanos()) as i128,
                        }),
                        future,
                    ),
                }
            } else {
                PredictionView::ClassesInNDays(
                    TimePrediction::WithinAWeek {
                        date: day.date,
                        duration: TimeDelta { nanos: (moment(day.date, day.classes[0].time.start) - moment(date, time)) as i128 },
                    },
                    day.classes,
                )
            }
        },
    }
}

fn ends_after(classes: &Vec<Classes>, time: Time) -> (r: bool)
    ensures
        r == exists|i: int| 0 <= i < classes@.len() && time.earlier(#[trigger] classes_views(classes@)[i].time.end),
{
    let ghost cv = classes_views(classes@);
    let mut i: usize = 0;
    while i < classes.len()
        invariant
            i <= classes@.len(),
            cv == classes_views(classes@),
            forall|j: int| 0 <= j < i ==> !time.earlier(#[trigger] cv[j].time.end),
        decreases classes@.len() - i,
    {
        assert(cv[i as int] == classes@[i as int]@);
        if time.is_earlier(&classes[i].time.end) {
            assert(time.earlier(classes_views(classes@)[i as int].time.end));
            return true;
        }
        i = i + 1;
    }
    false
}

fn is_upcoming(day: &Day, date: Date, time: Time) -> (r: bool)
    ensures
        r == day_is_upcoming(day@, date, time),
{
    if day.date == date {
        ends_after(&day.classes, time)
    } else {
        date.is_before(&day.date)
    }
}

fn find_first_upcoming(days: &Vec<Day>, date: Date, time: Time) -> (r: Option<usize>)
    ensures
        match r {
            Some(k) => first_upcoming(days_views(days@), date, time) == Some(k as int) && k < days@.len(),
            None => first_upcoming(days_views(days@), date, time) is None,
        },
{
    let ghost dv = days_views(days@);
    let mut k: usize = 0;
    while k < days.len()
        invariant
            k <= days@.len(),
            dv == days_views(days@),
            forall|j: int| 0 <= j < k ==> !day_is_upcoming(#[trigger] dv[j], date, time),
        decreases days@.len() - k,
    {
        assert(dv[k as int] == days@[k as int]@);
        if is_upcoming(&days[k], date, time) {
            proof {
                let c = choose|c: int| 0 <= c < dv.len() && day_is_upcoming(dv[c], date, time)
                    && forall|j: int| 0 <= j < c ==> !day_is_upcoming(#[trigger] dv[j], date, time);
                assert(day_is_upcoming(dv[k as int], date, time));
                if c < k {
                    assert(!day_is_upcoming(dv[c], date, time));
                }
                if c > k {
                    assert(!day_is_upcoming(dv[k as int], date, time));
                }
            }
            return Some(k);
        }
        k = k + 1;
    }
    None
}

fn find_in_progress(classes: &Vec<Classes>, time: Time) -> (r: Option<usize>)
    ensures
        match r {
            Some(i) => first_in_progress(classes_views(classes@), time) == Some(i as int) && i < classes@.len(),
            None => first_in_progress(classes_views(classes@), time) is None,
        },
{
    let ghost cv = classes_views(classes@);
    let mut i: usize = 0;
    while i < classes.len()
        invariant
            i <= classes@.len(),
            cv == classes_views(classes@),
            forall|j: int| 0 <= j < i ==> !in_progress_at(#[trigger] cv[j], time),
        decreases classes@.len() - i,
    {
        assert(cv[i as int] == classes@[i as int]@);
        if classes[i].time.start.is_earlier(&time) && time.is_earlier(&classes[i].time.end) {
            proof {
                let c = choose|c: int| 0 <= c < cv.len() && in_progress_at(cv[c], time)
                    && forall|j: int| 0 <= j < c ==> !in_progress_at(#[trigger] cv[j], time);
                assert(in_progress_at(cv[i as int], time));
                if c < i {
                    assert(!in_progress_at(cv[c], time));
                }
                if c > i {
                    assert(!in_progress_at(cv[i as int], time));
                }
            }
            return Some(i);
        }
        i = i + 1;
    }
    None
}

fn starting_after(classes: &Vec<Classes>, time: Time) -> (r: Vec<Classes>)
    ensures
        classes_views(r@) == classes_after(classes_views(classes@), time),
{
    let ghost cv = classes_views(classes@);
    let mut out: Vec<Classes> = Vec::new();
    let mut i: usize = 0;
    assert(cv.take(0) =~= Seq::<ClassesView>::empty());
    assert(classes_views(out@) =~= Seq::<ClassesView>::empty());
    while i < classes.len()
        invariant
            i <= classes@.len(),
            cv == classes_views(classes@),
            classes_views(out@) == classes_after(cv.take(i as int), time),
        decreases classes@.len() - i,
    {
        assert(cv.take(i + 1).drop_last() =~= cv.take(i as int));
        assert(cv.take(i + 1).last() == classes@[i as int]@);
        if time.is_earlier(&classes[i].time.start) {
            let ghost before = out@;
            out.push(classes[i].duplicate());
            assert(classes_views(out@) =~= classes_views(before).push(classes@[i as int]@));
        }
        i = i + 1;
    }
    assert(cv.take(i as int) =~= cv);
    out
}

/// The span from `since` to `until` within one day.
fn time_between(until: &Time, since: &Time) -> (r: TimeDelta)
    ensures
        r.nanos == until.total_nanos() - since.total_nanos(),
{
    let a: i128 = until.secs as i128 * 1_000_000_000 + until.nano as i128;
    let b: i128 = since.secs as i128 * 1_000_000_000 + since.nano as i128;
    TimeDelta { nanos: a - b }
}

/// What comes up after `date` `time`, given the coming days in order: nothing; classes under
/// way today and those after them; today's later classes and how soon the first starts; or the
/// classes of the next day that has any, and how soon they start.
#[verifier::rlimit(60)]
pub fn predict_upcoming_events(days: &Vec<Day>, date: Date, time: Time) -> (r: UpcomingEventsPrediction)
    requires
        date.wf(),
        time.wf(),
        days_wf(days_views(days@)),
        prediction_defined(days_views(days@), date, time),
    ensures
        r@ == prediction_spec(days_views(days@), date, time),
{
    let ghost dv = days_views(days@);
    let k = match find_first_upcoming(days, date, time) {
        None => return UpcomingEventsPrediction::NoClassesNextWeek,
        Some(k) => k,
    };
    let day = &days[k];
    assert(dv[k as int] == day@);
    if day.date == date {
        let future = starting_after(&day.classes, time);
        match find_in_progress(&day.classes, time) {
            Some(i) => {
                assert(classes_views(day.classes@)[i as int] == day.classes@[i as int]@);
                let in_progress = Box::new(day.classes[i].duplicate());
                let future_classes = if future.len() == 0 { None } else { Some(future) };
                UpcomingEventsPrediction::ClassesTodayStarted { in_progress, future_classes }
            },
            None => {
                assert(classes_views(future@)[0] == future@[0]@);
                let start = future[0].time.start;
                let time_prediction = TimePrediction::WithinOneDay(time_between(&start, &time));
                UpcomingEventsPrediction::ClassesTodayNotStarted { time_prediction, future_classes: future }
            },
        }
    } else {
        assert(classes_views(day.classes@)[0] == day.classes@[0]@);
        assert(dv[k as int].classes[0].time.start.wf());
        let start = day.classes[0].time.start;
        let duration = span_between(&day.date, &start, &date, &time);
        let time_prediction = TimePrediction::WithinAWeek { date: day.date, duration };
        let future_classes = crate::models::duplicate_classes(&day.classes);
        UpcomingEventsPrediction::ClassesInNDays { time_prediction, future_classes }
    }
}

/// The days of the weeks, in order.
pub open spec fn all_days(weeks: Seq<WeekView>) -> Seq<DayView>
    decreases weeks.len(),
{
    if weeks.len() == 0 {
        Seq::empty()
    } else {
        all_days(weeks.drop_last()) + weeks.last().days
    }
}

fn append_days(out: &mut Vec<Day>, weeks: &Vec<Week>)
    ensures
        days_views(final(out)@) == days_views(old(out)@) + all_days(weeks_views(weeks@)),
{
    let ghost wv = weeks_views(weeks@);
    let ghost start = days_views(out@);
    let mut i: usize = 0;
    assert(wv.take(0) =~= Seq::<WeekView>::empty());
    assert(start + all_days(wv.take(0)) =~= start);
    while i < weeks.len()
        invariant
            i <= weeks@.len(),
            wv == weeks_views(weeks@),
            days_views(out@) == start + all_days(wv.take(i as int)),
        decreases weeks@.len() - i,
    {
        let ghost before = days_views(out@);
        let ghost wdays = days_views(weeks@[i as int].days@);
        let mut j: usize = 0;
        assert(before + wdays.take(0) =~= before);
        while j < weeks[i].days.len()
            invariant
                i < weeks@.len(),
                j <= weeks@[i as int].days@.len(),
                wdays == days_views(weeks@[i as int].days@),
                days_views(out@) == before + wdays.take(j as int),
            decreases weeks@[i as int].days@.len() - j,
        {
            let ghost prev = out@;
            out.push(weeks[i].days[j].duplicate());
            assert(days_views(out@) =~= days_views(prev).push(weeks@[i as int].days@[j as int]@));
            assert(wdays.take(j + 1) =~= wdays.take(j as int).push(wdays[j as int]));
            assert(before + wdays.take(j + 1) =~= (before + wdays.take(j as int)).push(wdays[j as int]));
            j = j + 1;
        }
        assert(wdays.take(j as int) =~= wdays);
        assert(wv.take(i + 1).drop_last() =~= wv.take(i as int));
        assert(wv.take(i + 1).last() == weeks@[i as int]@);
        assert(start + all_days(wv.take(i + 1)) =~= start + all_days(wv.take(i as int)) + wdays);
        i = i + 1;
    }
    assert(wv.take(i as int) =~= wv);
}

/// The days of this week's and next week's schedules, in order.
pub open spec fn coming_days(this_week: Schedule, next_week: Schedule) -> Seq<DayView> {
    all_days(weeks_views(this_week.weeks@)) + all_days(weeks_views(next_week.weeks@))
}

/// Answers a request for upcoming events with the forecast over this week's and next week's
/// schedules.
pub fn upcoming_events_reply(
    this_week: &Schedule,
    next_week: &Schedule,
    schedule_type: ScheduleType,
    date: Date,
    time: Time,
) -> (r: Reply)
    requires
        date.wf(),
        time.wf(),
        days_wf(coming_days(*this_week, *next_week)),
        prediction_defined(coming_days(*this_week, *next_week), date, time),
    ensures
        r matches Reply::UpcomingEvents { prediction, schedule_type: t }
            && t == schedule_type
            && prediction@ == prediction_spec(coming_days(*this_week, *next_week), date, time),
{
    let mut days: Vec<Day> = Vec::new();
    assert(days_views(days@) =~= Seq::<DayView>::empty());
    append_days(&mut days, &this_week.weeks);
    append_days(&mut days, &next_week.weeks);
    assert(days_views(days@) =~= coming_days(*this_week, *next_week));
    let prediction = predict_upcoming_events(&days, date, time);
    Reply::UpcomingEvents { prediction, schedule_type }
}

/// Where some index below `n` satisfies `p`, a least one does.
proof fn lemma_least_index(n: int, p: spec_fn(int) -> bool)
    requires
        exists|k: int| 0 <= k < n && #[trigger] p(k),
    ensures
        exists|k: int| 0 <= k < n && #[trigger] p(k) && forall|j: int| 0 <= j < k ==> !#[trigger] p(j),
    decreases n,
{
    if exists|k: int| 0 <= k < n - 1 && #[trigger] p(k) {
        lemma_least_index(n - 1, p);
        let k = choose|k: int| 0 <= k < n - 1 && #[trigger] p(k) && forall|j: int| 0 <= j < k ==> !#[trigger] p(j);
        assert(0 <= k < n && p(k) && forall|j: int| 0 <= j < k ==> !#[trigger] p(j));
    } else {
        let k = choose|k: int| 0 <= k < n && #[trigger] p(k);
        assert(k == n - 1);
        assert(forall|j: int| 0 <= j < n - 1 ==> !#[trigger] p(j));
    }
}

proof fn lemma_first_upcoming_is_first(days: Seq<DayView>, date: Date, time: Time)
    ensures
        first_upcoming(days, date, time) matches Some(k) ==> 0 <= k < days.len()
            && day_is_upcoming(days[k], date, time)
            && forall|j: int| 0 <= j < k ==> !day_is_upcoming(#[trigger] days[j], date, time),
{
    if exists|k: int| 0 <= k < days.len() && day_is_upcoming(days[k], date, time) {
        let p = |k: int| day_is_upcoming(days[k], date, time);
        let w = choose|k: int| 0 <= k < days.len() && day_is_upcoming(days[k], date, time);
        assert(p(w));
        lemma_least_index(days.len() as int, p);
        let m = choose|k: int| 0 <= k < days.len() && #[trigger] p(k) && forall|j: int| 0 <= j < k ==> !#[trigger] p(j);
        assert(0 <= m < days.len() && day_is_upcoming(days[m], date, time)
            && forall|j: int| 0 <= j < m ==> !day_is_upcoming(#[trigger] days[j], date, time)) by {
            assert forall|j: int| 0 <= j < m implies !day_is_upcoming(#[trigger] days[j], date, time) by {
                assert(!p(j));
            }
        }
    }
}

proof fn lemma_first_in_progress_is_first(classes: Seq<ClassesView>, time: Time)
    ensures
        first_in_progress(classes, time) matches Some(i) ==> 0 <= i < classes.len()
            && in_progress_at(classes[i], time),
{
    if exists|i: int| 0 <= i < classes.len() && in_progress_at(classes[i], time) {
        let p = |i: int| in_progress_at(classes[i], time);
        let w = choose|i: int| 0 <= i < classes.len() && in_progress_at(classes[i], time);
        assert(p(w));
        lemma_least_index(classes.len() as int, p);
        let m = choose|i: int| 0 <= i < classes.len() && #[trigger] p(i) && forall|j: int| 0 <= j < i ==> !#[trigger] p(j);
        assert(0 <= m < classes.len() && in_progress_at(classes[m], time)
            && forall|j: int| 0 <= j < m ==> !in_progress_at(#[trigger] classes[j], time)) by {
            assert forall|j: int| 0 <= j < m implies !in_progress_at(#[trigger] classes[j], time) by {
                assert(!p(j));
            }
        }
    }
}

/// A message naming a day of the week asks for that day: Monday to Saturday (`index` 0 to 5,
/// counted from Monday) by their Russian and English names and short forms. The day it is
/// answered for lies 0 to 6 days ahead of today and falls on the named day.
pub proof fn lemma_day_name_lands(cleared: Seq<char>, rel_day_match: Option<bool>, current_weekday: int, index: int)
    requires
        1 <= current_weekday <= 7,
        (index == 0 && (cleared == "пн"@ || cleared == "понедельник"@ || cleared == "mon"@ || cleared == "monday"@))
            || (index == 1 && (cleared == "вт"@ || cleared == "вторник"@ || cleared == "tue"@ || cleared == "tuesday"@))
            || (index == 2 && (cleared == "ср"@ || cleared == "среда"@ || cleared == "wed"@ || cleared == "wednesday"@))
            || (index == 3 && (cleared == "чт"@ || cleared == "четверг"@ || cleared == "thu"@ || cleared == "thursday"@))
            || (index == 4 && (cleared == "пт"@ || cleared == "пятница"@ || cleared == "fri"@ || cleared == "friday"@))
            || (index == 5 && (cleared == "сб"@ || cleared == "суббота"@ || cleared == "sat"@ || cleared == "saturday"@)),
    ensures
        cleared_action_spec(cleared, Some(true), rel_day_match, current_weekday) matches Ok(ActionView::DayWithOffset(o))
            && 0 <= o <= 6 && (current_weekday - 1 + o) % 7 == index,
{
    reveal_strlit("пн");
    assert("пн"@.len() == 2);
    assert("пн"@[0] == 'п');
    assert("пн"@[1] == 'н');
    reveal_strlit("понедельник");
    assert("понедельник"@.len() == 11);
    reveal_strlit("mon");
    assert("mon"@.len() == 3);
    assert("mon"@[0] == 'm');
    reveal_strlit("monday");
    assert("monday"@.len() == 6);
    assert("monday"@[0] == 'm');
    reveal_strlit("вт");
    assert("вт"@.len() == 2);
    assert("вт"@[0] == 'в');
    reveal_strlit("вторник");
    assert("вторник"@.len() == 7);
    assert("вторник"@[0] == 'в');
    reveal_strlit("tue");
    assert("tue"@.len() == 3);
    assert("tue"@[0] == 't');
    assert("tue"@[1] == 'u');
    reveal_strlit("tuesday");
    assert("tuesday"@.len() == 7);
    assert("tuesday"@[0] == 't');
    reveal_strlit("ср");
    assert("ср"@.len() == 2);
    assert("ср"@[0] == 'с');
    assert("ср"@[1] == 'р');
    reveal_strlit("среда");
    assert("среда"@.len() == 5);
    assert("среда"@[0] == 'с');
    assert("среда"@[1] == 'р');
    reveal_strlit("wed");
    assert("wed"@.len() == 3);
    assert("wed"@[0] == 'w');
    reveal_strlit("wednesday");
    assert("wednesday"@.len() == 9);
    assert("wednesday"@[0] == 'w');
    reveal_strlit("чт");
    assert("чт"@.len() == 2);
    assert("чт"@[0] == 'ч');
    reveal_strlit("четверг");
    assert("четверг"@.len() == 7);
    assert("четверг"@[0] == 'ч');
    reveal_strlit("thu");
    assert("thu"@.len() == 3);
    assert("thu"@[0] == 't');
    assert("thu"@[1] == 'h');
    reveal_strlit("thursday");
    assert("thursday"@.len() == 8);
    assert("thursday"@[0] == 't');
    reveal_strlit("пт");
    assert("пт"@.len() == 2);
    assert("пт"@[0] == 'п');
    assert("пт"@[1] == 'т');
    reveal_strlit("пятница");
    assert("пятница"@.len() == 7);
    assert("пятница"@[0] == 'п');
    reveal_strlit("fri");
    assert("fri"@.len() == 3);
    assert("fri"@[0] == 'f');
    reveal_strlit("friday");
    assert("friday"@.len() == 6);
    assert("friday"@[0] == 'f');
    reveal_strlit("сб");
    assert("сб"@.len() == 2);
    assert("сб"@[0] == 'с');
    assert("сб"@[1] == 'б');
    reveal_strlit("суббота");
    assert("суббота"@.len() == 7);
    assert("суббота"@[0] == 'с');
    assert("суббота"@[1] == 'у');
    reveal_strlit("sat");
    assert("sat"@.len() == 3);
    assert("sat"@[0] == 's');
    reveal_strlit("saturday");
    assert("saturday"@.len() == 8);
    assert("saturday"@[0] == 's');
    reveal_strlit("старт");
    assert("старт"@.len() == 5);
    assert("старт"@[0] == 'с');
    assert("старт"@[1] == 'т');
    reveal_strlit("начать");
    assert("начать"@.len() == 6);
    assert("начать"@[0] == 'н');
    reveal_strlit("start");
    assert("start"@.len() == 5);
    assert("start"@[0] == 's');
    reveal_strlit("/start");
    assert("/start"@.len() == 6);
    assert("/start"@[0] == '/');
    reveal_strlit("статус");
    assert("статус"@.len() == 6);
    assert("статус"@[0] == 'с');
    reveal_strlit("ближайшие пары");
    assert("ближайшие пары"@.len() == 14);
    assert("ближайшие пары"@[0] == 'б');
    reveal_strlit("ближайшие");
    assert("ближайшие"@.len() == 9);
    assert("ближайшие"@[0] == 'б');
    reveal_strlit("status");
    assert("status"@.len() == 6);
    assert("status"@[0] == 's');
    reveal_strlit("/status");
    assert("/status"@.len() == 7);
    assert("/status"@[0] == '/');
    assert("/status"@[1] == 's');
    reveal_strlit("помощь");
    assert("помощь"@.len() == 6);
    assert("помощь"@[0] == 'п');
    assert("помощь"@[4] == 'щ');
    reveal_strlit("справка");
    assert("справка"@.len() == 7);
    assert("справка"@[0] == 'с');
    assert("справка"@[1] == 'п');
    reveal_strlit("помоги");
    assert("помоги"@.len() == 6);
    assert("помоги"@[0] == 'п');
    assert("помоги"@[4] == 'г');
    reveal_strlit("help");
    assert("help"@.len() == 4);
    reveal_strlit("/help");
    assert("/help"@.len() == 5);
    assert("/help"@[0] == '/');
    reveal_strlit("сменить");
    assert("сменить"@.len() == 7);
    assert("сменить"@[0] == 'с');
    assert("сменить"@[1] == 'м');
    reveal_strlit("сменить группу");
    assert("сменить группу"@.len() == 14);
    assert("сменить группу"@[0] == 'с');
    reveal_strlit("сменить расписание");
    assert("сменить расписание"@.len() == 18);
    reveal_strlit("change");
    assert("change"@.len() == 6);
    assert("change"@[0] == 'c');
    reveal_strlit("/change");
    assert("/change"@.len() == 7);
    assert("/change"@[0] == '/');
    assert("/change"@[1] == 'c');
    reveal_strlit("эта неделя");
    assert("эта неделя"@.len() == 10);
    reveal_strlit("/thisweek");
    assert("/thisweek"@.len() == 9);
    assert("/thisweek"@[0] == '/');
    assert("/thisweek"@[1] == 't');
    reveal_strlit("следующая неделя");
    assert("следующая неделя"@.len() == 16);
    reveal_strlit("/nextweek");
    assert("/nextweek"@.len() == 9);
    assert("/nextweek"@[0] == '/');
    assert("/nextweek"@[1] == 'n');
    assert(command_spec(cleared) is None);
    assert(day_of_week_of_name(cleared) == Some(index + 1));
    lemma_weekday_offset_lands(current_weekday, index + 1);
}

/// A requested day of the week is reached from today's by the offset given for it: the
/// offset lies in `0..=6` and lands on the requested day.
pub proof fn lemma_weekday_offset_lands(current: int, requested: int)
    requires
        1 <= current <= 7,
        1 <= requested <= 7,
    ensures
        0 <= weekday_offset(current, requested) <= 6,
        (current - 1 + weekday_offset(current, requested)) % 7 == requested - 1,
{
}

proof fn lemma_classes_after_start_later(classes: Seq<ClassesView>, time: Time)
    ensures
        forall|i: int| 0 <= i < classes_after(classes, time).len()
            ==> time.earlier(#[trigger] classes_after(classes, time)[i].time.start),
        (forall|j: int| 0 <= j < classes.len() ==> (#[trigger] classes[j]).time.start.wf())
            ==> forall|i: int| 0 <= i < classes_after(classes, time).len()
                ==> (#[trigger] classes_after(classes, time)[i]).time.start.wf(),
    decreases classes.len(),
{
    if classes.len() > 0 {
        lemma_classes_after_start_later(classes.drop_last(), time);
        if forall|j: int| 0 <= j < classes.len() ==> (#[trigger] classes[j]).time.start.wf() {
            assert forall|j: int| 0 <= j < classes.drop_last().len() implies (#[trigger] classes.drop_last()[j]).time.start.wf() by {
                assert(classes.drop_last()[j] == classes[j]);
            }
            assert(classes.last() == classes[classes.len() - 1]);
        }
    }
}

proof fn lemma_positive_wait(start: Time, time: Time)
    requires
        start.wf(),
        time.wf(),
        time.earlier(start),
    ensures
        0 < start.total_nanos() - time.total_nanos() < 86400 * 1_000_000_000,
{
    assert(0 < start.total_nanos() - time.total_nanos() < 86400 * 1_000_000_000) by (nonlinear_arith)
        requires
            start.secs < 86400, start.nano < 1_000_000_000,
            time.secs < 86400, time.nano < 1_000_000_000,
            time.secs < start.secs || (time.secs == start.secs && time.nano < start.nano),
            start.total_nanos() == start.secs * 1_000_000_000 + start.nano,
            time.total_nanos() == time.secs * 1_000_000_000 + time.nano;
}

/// Classes the forecast announces for later today start after the current time, and the
/// wait for the first of them is positive.
pub proof fn lemma_wait_today_positive(days: Seq<DayView>, date: Date, time: Time)
    requires
        time.wf(),
        days_wf(days),
        prediction_defined(days, date, time),
    ensures
        prediction_spec(days, date, time) matches PredictionView::ClassesTodayNotStarted(tp, cs) ==> {
            &&& forall|i: int| 0 <= i < cs.len() ==> time.earlier(#[trigger] cs[i].time.start)
            &&& tp matches TimePrediction::WithinOneDay(d) && d.nanos > 0
        },
{
    if let Some(k) = first_upcoming(days, date, time) {
        lemma_first_upcoming_is_first(days, date, time);
        let day = days[k];
        lemma_classes_after_start_later(day.classes, time);
        if day.date == date && first_in_progress(day.classes, time) is None {
            let future = classes_after(day.classes, time);
            assert(days_wf(days));
            assert forall|j: int| 0 <= j < day.classes.len() implies (#[trigger] day.classes[j]).time.start.wf() by {
                assert(day.classes[j].time.start.wf());
            }
            assert(future[0].time.start.wf());
            lemma_positive_wait(future[0].time.start, time);
        }
    }
}

/// When classes are under way, the forecast names classes that are under way, and those
/// announced after them start after the current time.
pub proof fn lemma_started_classes_under_way(days: Seq<DayView>, date: Date, time: Time)
    ensures
        prediction_spec(days, date, time) matches PredictionView::ClassesTodayStarted(c, future) ==> {
            &&& in_progress_at(c, time)
            &&& future matches Some(cs) ==> forall|i: int| 0 <= i < cs.len() ==> time.earlier(#[trigger] cs[i].time.start)
        },
{
    if let Some(k) = first_upcoming(days, date, time) {
        lemma_first_upcoming_is_first(days, date, time);
        let day = days[k];
        lemma_classes_after_start_later(day.classes, time);
        lemma_first_in_progress_is_first(day.classes, time);
    }
}

fn classes_times_valid(classes: &Vec<Classes>) -> (r: bool)
    ensures
        r == forall|i: int| 0 <= i < classes@.len() ==>
            (#[trigger] classes_views(classes@)[i]).time.start.wf() && classes_views(classes@)[i].time.end.wf(),
{
    let ghost cv = classes_views(classes@);
    let mut i: usize = 0;
    while i < classes.len()
        invariant
            i <= classes@.len(),
            cv == classes_views(classes@),
            forall|j: int| 0 <= j < i ==> (#[trigger] cv[j]).time.start.wf() && cv[j].time.end.wf(),
        decreases classes@.len() - i,
    {
        assert(cv[i as int] == classes@[i as int]@);
        if !(classes[i].time.start.is_valid() && classes[i].time.end.is_valid()) {
            return false;
        }
        i = i + 1;
    }
    true
}

fn days_valid(days: &Vec<Day>) -> (r: bool)
    ensures
        r == days_wf(days_views(days@)),
{
    let ghost dv = days_views(days@);
    let mut k: usize = 0;
    while k < days.len()
        invariant
            k <= days@.len(),
            dv == days_views(days@),
            forall|j: int| 0 <= j < k ==> {
                &&& (#[trigger] dv[j]).date.wf()
                &&& forall|i: int| 0 <= i < dv[j].classes.len() ==>
                    (#[trigger] dv[j].classes[i]).time.start.wf() && dv[j].classes[i].time.end.wf()
            },
        decreases days@.len() - k,
    {
        assert(dv[k as int] == days@[k as int]@);
        let date_ok = days[k].date.is_valid();
        let classes_ok = classes_times_valid(&days[k].classes);
        if !date_ok || !classes_ok {
            proof {
                let cv = classes_views(days@[k as int].classes@);
                assert(dv[k as int].classes == cv);
                if date_ok {
                    let i = choose|i: int| 0 <= i < days@[k as int].classes@.len()
                        && !((#[trigger] cv[i]).time.start.wf() && cv[i].time.end.wf());
                    assert(!(dv[k as int].classes[i].time.start.wf() && dv[k as int].classes[i].time.end.wf()));
                }
            }
            return false;
        }
        k = k + 1;
    }
    true
}

/// Whether the forecast over this week's and next week's schedules can be made at `date`
/// `time`: all their dates and times are valid, and it never reaches for classes that are
/// not there.
pub fn upcoming_events_ready(this_week: &Schedule, next_week: &Schedule, date: Date, time: Time) -> (r: bool)
    ensures
        r == (days_wf(coming_days(*this_week, *next_week)) && prediction_defined(coming_days(*this_week, *next_week), date, time)),
{
    let mut days: Vec<Day> = Vec::new();
    assert(days_views(days@) =~= Seq::<DayView>::empty());
    append_days(&mut days, &this_week.weeks);
    append_days(&mut days, &next_week.weeks);
    assert(days_views(days@) =~= coming_days(*this_week, *next_week));
    if !days_valid(&days) {
        return false;
    }
    let ghost dv = days_views(days@);
    match find_first_upcoming(&days, date, time) {
        None => true,
        Some(k) => {
            assert(dv[k as int] == days@[k as int]@);
            if days[k].date == date {
                let under_way = find_in_progress(&days[k].classes, time);
                let later = starting_after(&days[k].classes, time);
                under_way.is_some() || later.len() > 0
            } else {
                days[k].classes.len() > 0
            }
        },
    }
}

} // verus!
