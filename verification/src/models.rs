//! Schedule models served by the backend and read by the bots.
use vstd::prelude::*;
use crate::calendar::{Date, Time};
use crate::text::{chars_of, chars_equal, copy_string, push_str};

verus! {

/// Kind of schedule owner.
#[derive(Clone, Copy, PartialEq, Eq, Structural, Debug, Hash)]
pub enum ScheduleType {
    Group,
    Person,
    Room,
}

/// The lowercase name of a schedule type.
pub open spec fn schedule_type_name(t: ScheduleType) -> Seq<char> {
    match t {
        ScheduleType::Group => "group"@,
        ScheduleType::Person => "person"@,
        ScheduleType::Room => "room"@,
    }
}

/// What parsing a schedule type gives: the exact lowercase names, nothing else.
pub open spec fn parse_schedule_type_spec(s: Seq<char>) -> Option<ScheduleType> {
    if s == "group"@ {
        Some(ScheduleType::Group)
    } else if s == "person"@ {
        Some(ScheduleType::Person)
    } else if s == "room"@ {
        Some(ScheduleType::Room)
    } else {
        None
    }
}

/// The text of a schedule type that could not be parsed.
#[derive(Debug)]
pub struct ParseScheduleTypeError(pub String);

impl ScheduleType {
    /// The lowercase name: `group`, `person` or `room`.
    pub fn as_str(&self) -> (r: &'static str)
        ensures
            r@ == schedule_type_name(*self),
    {
        match self {
            ScheduleType::Group => "group",
            ScheduleType::Person => "person",
            ScheduleType::Room => "room",
        }
    }

    /// The lowercase name as a new string.
    pub fn to_name(&self) -> (r: String)
        ensures
            r@ == schedule_type_name(*self),
    {
        copy_string(self.as_str())
    }

    /// Parses one of `group`, `person`, `room`.
    pub fn from_str(s: &str) -> (r: Result<ScheduleType, ParseScheduleTypeError>)
        ensures
            r matches Ok(t) ==> parse_schedule_type_spec(s@) == Some(t),
            r matches Err(e) ==> parse_schedule_type_spec(s@) is None && e.0@ == s@,
            r is Ok <==> parse_schedule_type_spec(s@) is Some,
    {
        let v = chars_of(s);
        let group = chars_of("group");
        let person = chars_of("person");
        let room = chars_of("room");
        if chars_equal(v.as_slice(), group.as_slice()) {
            Ok(ScheduleType::Group)
        } else if chars_equal(v.as_slice(), person.as_slice()) {
            Ok(ScheduleType::Person)
        } else if chars_equal(v.as_slice(), room.as_slice()) {
            Ok(ScheduleType::Room)
        } else {
            Err(ParseScheduleTypeError(copy_string(s)))
        }
    }
}

impl ParseScheduleTypeError {
    /// `Unknown schedule type: <text>`.
    pub fn describe(&self) -> (r: String)
        ensures
            r@ == "Unknown schedule type: "@ + self.0@,
    {
        let mut s = String::new();
        push_str(&mut s, "Unknown schedule type: ");
        push_str(&mut s, self.0.as_str());
        s
    }
}

/// Kind of classes.
#[derive(Clone, Copy, PartialEq, Eq, Structural, Debug)]
pub enum ClassesType {
    Undefined,
    Lecture,
    Practice,
    Lab,
    Course,
    Consultation,
    Exam,
}

/// Start and end time of classes.
#[derive(Clone, Copy, PartialEq, Eq, Structural, Debug)]
pub struct ClassesTime {
    pub start: Time,
    pub end: Time,
}

/// One class in a schedule.
#[derive(Debug)]
pub struct Classes {
    pub name: String,
    pub classes_type: ClassesType,
    pub raw_type: String,
    pub place: String,
    pub groups: String,
    pub person: String,
    pub time: ClassesTime,
    pub number: i8,
}

pub struct ClassesView {
    pub name: Seq<char>,
    pub classes_type: ClassesType,
    pub raw_type: Seq<char>,
    pub place: Seq<char>,
    pub groups: Seq<char>,
    pub person: Seq<char>,
    pub time: ClassesTime,
    pub number: i8,
}

impl View for Classes {
    type V = ClassesView;

    open spec fn view(&self) -> ClassesView {
        ClassesView {
            name: self.name@,
            classes_type: self.classes_type,
            raw_type: self.raw_type@,
            place: self.place@,
            groups: self.groups@,
            person: self.person@,
            time: self.time,
            number: self.number,
        }
    }
}

/// Views of a sequence of classes.
pub open spec fn classes_views(s: Seq<Classes>) -> Seq<ClassesView> {
    s.map_values(|c: Classes| c@)
}

impl Classes {
    /// A copy of these classes.
    pub fn duplicate(&self) -> (r: Classes)
        ensures
            r@ == self@,
    {
        Classes {
            name: copy_string(self.name.as_str()),
            classes_type: self.classes_type,
            raw_type: copy_string(self.raw_type.as_str()),
            place: copy_string(self.place.as_str()),
            groups: copy_string(self.groups.as_str()),
            person: copy_string(self.person.as_str()),
            time: self.time,
            number: self.number,
        }
    }
}

/// A copy of a list of classes.
pub fn duplicate_classes(v: &Vec<Classes>) -> (r: Vec<Classes>)
    ensures
        classes_views(r@) == classes_views(v@),
{
    let mut r: Vec<Classes> = Vec::new();
    let n = v.len();
    for i in 0..n
        invariant
            n == v@.len(),
            r@.len() == i,
            forall|j: int| 0 <= j < i ==> #[trigger] r@[j]@ == v@[j]@,
    {
        r.push(v[i].duplicate());
    }
    assert(classes_views(r@) =~= classes_views(v@));
    r
}

/// One day of a schedule.
#[derive(Debug)]
pub struct Day {
    pub day_of_week: u8,
    pub date: Date,
    pub classes: Vec<Classes>,
}

pub struct DayView {
    pub day_of_week: u8,
    pub date: Date,
    pub classes: Seq<ClassesView>,
}

impl View for Day {
    type V = DayView;

    open spec fn view(&self) -> DayView {
        DayView { day_of_week: self.day_of_week, date: self.date, classes: classes_views(self.classes@) }
    }
}

/// Views of a sequence of days.
pub open spec fn days_views(s: Seq<Day>) -> Seq<DayView> {
    s.map_values(|d: Day| d@)
}

impl Day {
    /// A copy of this day.
    pub fn duplicate(&self) -> (r: Day)
        ensures
            r@ == self@,
    {
        Day { day_of_week: self.day_of_week, date: self.date, classes: duplicate_classes(&self.classes) }
    }
}

/// One week of a schedule.
#[derive(Debug)]
pub struct Week {
    pub week_of_year: u8,
    pub week_of_semester: i8,
    pub first_day_of_week: Date,
    pub days: Vec<Day>,
}

pub struct WeekView {
    pub week_of_year: u8,
    pub week_of_semester: i8,
    pub first_day_of_week: Date,
    pub days: Seq<DayView>,
}

impl View for Week {
    type V = WeekView;

    open spec fn view(&self) -> WeekView {
        WeekView {
            week_of_year: self.week_of_year,
            week_of_semester: self.week_of_semester,
            first_day_of_week: self.first_day_of_week,
            days: days_views(self.days@),
        }
    }
}

/// Views of a sequence of weeks.
pub open spec fn weeks_views(s: Seq<Week>) -> Seq<WeekView> {
    s.map_values(|w: Week| w@)
}

/// A schedule of a group, a person or a room.
#[derive(Debug)]
pub struct Schedule {
    pub id: String,
    pub name: String,
    pub schedule_type: ScheduleType,
    pub weeks: Vec<Week>,
}

pub struct ScheduleView {
    pub id: Seq<char>,
    pub name: Seq<char>,
    pub schedule_type: ScheduleType,
    pub weeks: Seq<WeekView>,
}

impl View for Schedule {
    type V = ScheduleView;

    open spec fn view(&self) -> ScheduleView {
        ScheduleView {
            id: self.id@,
            name: self.name@,
            schedule_type: self.schedule_type,
            weeks: weeks_views(self.weeks@),
        }
    }
}

/// One result of a schedule search.
#[derive(Debug)]
pub struct ScheduleSearchResult {
    pub name: String,
    pub description: String,
    pub id: String,
    pub schedule_type: ScheduleType,
}

pub struct SearchResultView {
    pub name: Seq<char>,
    pub description: Seq<char>,
    pub id: Seq<char>,
    pub schedule_type: ScheduleType,
}

impl View for ScheduleSearchResult {
    type V = SearchResultView;

    open spec fn view(&self) -> SearchResultView {
        SearchResultView {
            name: self.name@,
            description: self.description@,
            id: self.id@,
            schedule_type: self.schedule_type,
        }
    }
}

/// Views of a sequence of search results.
pub open spec fn results_views(s: Seq<ScheduleSearchResult>) -> Seq<SearchResultView> {
    s.map_values(|r: ScheduleSearchResult| r@)
}

impl ScheduleSearchResult {
    /// A copy of this search result.
    pub fn duplicate(&self) -> (r: ScheduleSearchResult)
        ensures
            r@ == self@,
    {
        ScheduleSearchResult {
            name: copy_string(self.name.as_str()),
            description: copy_string(self.description.as_str()),
            id: copy_string(self.id.as_str()),
            schedule_type: self.schedule_type,
        }
    }
}

impl Week {
    /// A copy of this week.
    pub fn duplicate(&self) -> (r: Week)
        ensures
            r@ == self@,
    {
        let mut days: Vec<Day> = Vec::new();
        let mut i: usize = 0;
        while i < self.days.len()
            invariant
                i <= self.days@.len(),
                days@.len() == i,
                forall|j: int| 0 <= j < i ==> (#[trigger] days@[j])@ == self.days@[j]@,
            decreases self.days@.len() - i,
        {
            days.push(self.days[i].duplicate());
            i = i + 1;
        }
        assert(days_views(days@) =~= days_views(self.days@));
        Week {
            week_of_year: self.week_of_year,
            week_of_semester: self.week_of_semester,
            first_day_of_week: self.first_day_of_week,
            days,
        }
    }
}

impl Schedule {
    /// A copy of this schedule.
    pub fn duplicate(&self) -> (r: Schedule)
        ensures
            r@ == self@,
    {
        let mut weeks: Vec<Week> = Vec::new();
        let mut i: usize = 0;
        while i < self.weeks.len()
            invariant
                i <= self.weeks@.len(),
                weeks@.len() == i,
                forall|j: int| 0 <= j < i ==> (#[trigger] weeks@[j])@ == self.weeks@[j]@,
            decreases self.weeks@.len() - i,
        {
            weeks.push(self.weeks[i].duplicate());
            i = i + 1;
        }
        assert(weeks_views(weeks@) =~= weeks_views(self.weeks@));
        Schedule {
            id: copy_string(self.id.as_str()),
            name: copy_string(self.name.as_str()),
            schedule_type: self.schedule_type,
            weeks,
        }
    }
}

} // verus!
