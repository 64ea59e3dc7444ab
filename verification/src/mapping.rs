//! Mapping of the university's schedule responses to the project's schedule models.
use vstd::prelude::*;
use crate::calendar::{iso_week_spec, Date, Time, chrono_parse_date, chrono_parse_time, parse_date, parse_time};
use crate::errors::{error_spec, CommonError, CommonErrorView, ErrorKind};
use crate::models::{classes_views, days_views, results_views, Classes, ClassesTime, ClassesType, ClassesView, Day, DayView, Schedule, ScheduleSearchResult, ScheduleType, SearchResultView, Week, parse_schedule_type_spec};
use crate::names::ScheduleName;
use crate::pattern::{replace_all, replace_spec};
use crate::text::{chars_of, contains_chars, contains_spec, copy_string, decimal, decimal_string, lowercase, to_lowercase, trim, trim_spec};

verus! {

/// Week of the semester a week falls in.
#[derive(Clone, Copy, PartialEq, Eq, Structural, Debug)]
pub enum WeekOfSemester {
    /// A study week with its number.
    Studying(u8),
    /// A week outside the study period.
    NonStudying,
}

/// The number stored in a schedule for a week of the semester (`-1` outside the study period).
pub open spec fn semester_week_number(w: WeekOfSemester) -> i8 {
    match w {
        WeekOfSemester::Studying(n) => n as i8,
        WeekOfSemester::NonStudying => -1i8,
    }
}

/// Exec version of [semester_week_number].
pub fn week_number(w: WeekOfSemester) -> (r: i8)
    ensures
        r == semester_week_number(w),
{
    match w {
        WeekOfSemester::Studying(n) => n as i8,
        WeekOfSemester::NonStudying => -1,
    }
}

/// One class as the university's backend sends it.
#[derive(Debug)]
pub struct MpeiClasses {
    pub auditorium: String,
    pub begin_lesson: Time,
    pub end_lesson: Time,
    pub date: Date,
    pub discipline: String,
    pub kind_of_work: String,
    pub lecturer: String,
    pub stream: Option<String>,
    pub group: Option<String>,
    pub sub_group: Option<String>,
}

pub struct MpeiClassesView {
    pub auditorium: Seq<char>,
    pub begin_lesson: Time,
    pub end_lesson: Time,
    pub date: Date,
    pub discipline: Seq<char>,
    pub kind_of_work: Seq<char>,
    pub lecturer: Seq<char>,
    pub stream: Option<Seq<char>>,
    pub group: Option<Seq<char>>,
}

pub open spec fn opt_view(o: Option<String>) -> Option<Seq<char>> {
    match o {
        Some(s) => Some(s@),
        None => None,
    }
}

impl View for MpeiClasses {
    type V = MpeiClassesView;

    open spec fn view(&self) -> MpeiClassesView {
        MpeiClassesView {
            auditorium: self.auditorium@,
            begin_lesson: self.begin_lesson,
            end_lesson: self.end_lesson,
            date: self.date,
            discipline: self.discipline@,
            kind_of_work: self.kind_of_work@,
            lecturer: self.lecturer@,
            stream: opt_view(self.stream),
            group: opt_view(self.group),
        }
    }
}

pub open spec fn mpei_views(s: Seq<MpeiClasses>) -> Seq<MpeiClassesView> {
    s.map_values(|c: MpeiClasses| c@)
}

/// One search result as the university's backend sends it.
#[derive(Debug)]
pub struct MpeiSearchResult {
    pub id: i64,
    /// Name of the group, person or room.
    pub label: String,
    /// Faculty and description.
    pub description: String,
    /// `group`, `person` or `room`.
    pub result_type: String,
}

pub struct MpeiSearchResultView {
    pub id: i64,
    pub label: Seq<char>,
    pub description: Seq<char>,
    pub result_type: Seq<char>,
}

impl View for MpeiSearchResult {
    type V = MpeiSearchResultView;

    open spec fn view(&self) -> MpeiSearchResultView {
        MpeiSearchResultView {
            id: self.id,
            label: self.label@,
            description: self.description@,
            result_type: self.result_type@,
        }
    }
}

pub open spec fn mpei_results_views(s: Seq<MpeiSearchResult>) -> Seq<MpeiSearchResultView> {
    s.map_values(|r: MpeiSearchResult| r@)
}

/// Kind of classes read from the free-text kind the university gives.
pub open spec fn classes_type_spec(raw: Seq<char>) -> ClassesType {
    let l = lowercase(raw);
    if contains_spec(l, "лек"@) {
        ClassesType::Lecture
    } else if contains_spec(l, "лаб"@) {
        ClassesType::Lab
    } else if contains_spec(l, "прак"@) {
        ClassesType::Practice
    } else if contains_spec(l, "курс"@) || contains_spec(l, "кп"@) {
        ClassesType::Course
    } else if contains_spec(l, "экз"@) {
        ClassesType::Exam
    } else if contains_spec(l, "консул"@) {
        ClassesType::Consultation
    } else {
        ClassesType::Undefined
    }
}

/// The lecturer as shown: empty for a vacancy, trimmed otherwise.
pub open spec fn lecturer_spec(lecturer: Seq<char>) -> Seq<char> {
    if contains_spec(lowercase(lecturer), "вакансия"@) { Seq::empty() } else { trim_spec(lecturer) }
}

/// Number of the pair by its start time, `-1` for unusual start times.
pub open spec fn classes_number_spec(start: Time) -> i8 {
    let h = start.hour_spec();
    let m = start.minute_spec();
    if h == 9 && m == 20 { 1 }
    else if h == 11 && m == 10 { 2 }
    else if h == 13 && m == 45 { 3 }
    else if h == 15 && m == 35 { 4 }
    else if h == 17 && m == 20 { 5 }
    else if h == 18 && m == 55 { 6 }
    else if h == 20 && m == 30 { 7 }
    else { -1i8 }
}

/// The groups attending: the stream if given, else the group, else nothing.
pub open spec fn groups_spec(c: MpeiClassesView) -> Seq<char> {
    match c.stream {
        Some(s) => s,
        None => match c.group {
            Some(g) => g,
            None => Seq::empty(),
        },
    }
}

/// The project's model of one class of the university's response.
pub open spec fn map_classes_spec(c: MpeiClassesView) -> ClassesView {
    ClassesView {
        name: c.discipline,
        classes_type: classes_type_spec(c.kind_of_work),
        raw_type: c.kind_of_work,
        place: c.auditorium,
        groups: groups_spec(c),
        person: lecturer_spec(c.lecturer),
        time: ClassesTime { start: c.begin_lesson, end: c.end_lesson },
        number: classes_number_spec(c.begin_lesson),
    }
}

/// The mapped classes of `s` that take place on `d`, in their order in `s`.
pub open spec fn classes_on(s: Seq<MpeiClassesView>, d: Date) -> Seq<ClassesView>
    decreases s.len(),
{
    if s.len() == 0 {
        Seq::empty()
    } else {
        let prev = classes_on(s.drop_last(), d);
        if s.last().date == d { prev.push(map_classes_spec(s.last())) } else { prev }
    }
}

/// Some day of `days` has date `d`.
pub open spec fn has_day(days: Seq<DayView>, d: Date) -> bool {
    exists|i: int| 0 <= i < days.len() && (#[trigger] days[i]).date == d
}

/// Some class of `s` takes place on `d`.
pub open spec fn has_classes_on(s: Seq<MpeiClassesView>, d: Date) -> bool {
    exists|k: int| 0 <= k < s.len() && (#[trigger] s[k]).date == d
}

/// `days` holds one day per date of `s`, in increasing date order, each with its
/// weekday and the mapped classes of that date.
#[verifier::opaque]
pub open spec fn days_of(days: Seq<DayView>, s: Seq<MpeiClassesView>) -> bool {
    &&& forall|i: int, j: int| 0 <= i < j < days.len() ==> (#[trigger] days[i]).date.before((#[trigger] days[j]).date)
    &&& forall|i: int| 0 <= i < days.len() ==> has_classes_on(s, (#[trigger] days[i]).date)
    &&& forall|k: int| 0 <= k < s.len() ==> has_day(days, (#[trigger] s[k]).date)
    &&& forall|i: int| 0 <= i < days.len() ==> (#[trigger] days[i]).day_of_week == days[i].date.weekday_spec()
        && days[i].classes == classes_on(s, days[i].date)
}

/// Kind of classes read from the free-text kind the university gives.
pub fn get_classes_type(raw_type: &str) -> (r: ClassesType)
    ensures
        r == classes_type_spec(raw_type@),
{
    let l = to_lowercase(raw_type);
    let v = chars_of(l.as_str());
    let s = v.as_slice();
    if contains_chars(s, chars_of("лек").as_slice()) {
        ClassesType::Lecture
    } else if contains_chars(s, chars_of("лаб").as_slice()) {
        ClassesType::Lab
    } else if contains_chars(s, chars_of("прак").as_slice()) {
        ClassesType::Practice
    } else if contains_chars(s, chars_of("курс").as_slice()) || contains_chars(s, chars_of("кп").as_slice()) {
        ClassesType::Course
    } else if contains_chars(s, chars_of("экз").as_slice()) {
        ClassesType::Exam
    } else if contains_chars(s, chars_of("консул").as_slice()) {
        ClassesType::Consultation
    } else {
        ClassesType::Undefined
    }
}

/// The lecturer as shown: empty for a vacancy, trimmed otherwise.
pub fn check_is_not_empty(lecturer: &str) -> (r: String)
    ensures
        r@ == lecturer_spec(lecturer@),
{
    let l = to_lowercase(lecturer);
    if contains_chars(chars_of(l.as_str()).as_slice(), chars_of("вакансия").as_slice()) {
        return String::new();
    }
    trim(lecturer)
}

/// Number of the pair by its start time, `-1` for unusual start times.
pub fn get_number(time: &ClassesTime) -> (r: i8)
    requires
        time.start.wf(),
    ensures
        r == classes_number_spec(time.start),
{
    let h = time.start.hour();
    let m = time.start.minute();
    if h == 9 && m == 20 { 1 }
    else if h == 11 && m == 10 { 2 }
    else if h == 13 && m == 45 { 3 }
    else if h == 15 && m == 35 { 4 }
    else if h == 17 && m == 20 { 5 }
    else if h == 18 && m == 55 { 6 }
    else if h == 20 && m == 30 { 7 }
    else { -1 }
}

/// The project's model of one class of the university's response.
pub fn map_classes(c: &MpeiClasses) -> (r: Classes)
    requires
        c.begin_lesson.wf(),
    ensures
        r@ == map_classes_spec(c@),
{
    let time = ClassesTime { start: c.begin_lesson, end: c.end_lesson };
    let groups = match (&c.stream, &c.group) {
        (Some(stream), _) => copy_string(stream.as_str()),
        (None, Some(group)) => copy_string(group.as_str()),
        (_, _) => String::new(),
    };
    Classes {
        name: copy_string(c.discipline.as_str()),
        classes_type: get_classes_type(c.kind_of_work.as_str()),
        raw_type: copy_string(c.kind_of_work.as_str()),
        place: copy_string(c.auditorium.as_str()),
        groups,
        person: check_is_not_empty(c.lecturer.as_str()),
        number: get_number(&time),
        time,
    }
}

proof fn lemma_classes_on_push(s: Seq<MpeiClassesView>, c: MpeiClassesView, d: Date)
    ensures
        classes_on(s.push(c), d) == (if c.date == d { classes_on(s, d).push(map_classes_spec(c)) } else { classes_on(s, d) }),
{
    assert(s.push(c).drop_last() =~= s);
}


/// All dates and start times of the response are valid.
pub open spec fn classes_wf(s: Seq<MpeiClassesView>) -> bool {
    forall|k: int| 0 <= k < s.len() ==> (#[trigger] s[k]).date.wf() && s[k].begin_lesson.wf()
}

proof fn lemma_before_total(a: Date, b: Date)
    ensures
        a == b || a.before(b) || b.before(a),
        !(a.before(b) && b.before(a)),
        !a.before(a),
{
}

proof fn lemma_before_trans(a: Date, b: Date, c: Date)
    requires
        a.before(b),
        b.before(c),
    ensures
        a.before(c),
{
}

proof fn lemma_group_append(old_days: Seq<DayView>, nd: Seq<DayView>, pre: Seq<MpeiClassesView>, c: MpeiClassesView, i: int)
    requires
        days_of(old_days, pre),
        0 <= i < old_days.len(),
        old_days[i].date == c.date,
        nd.len() == old_days.len(),
        forall|j: int| 0 <= j < nd.len() && j != i ==> nd[j] == old_days[j],
        nd[i] == (DayView { day_of_week: old_days[i].day_of_week, date: old_days[i].date, classes: old_days[i].classes.push(map_classes_spec(c)) }),
    ensures
        days_of(nd, pre.push(c)),
{
    reveal(days_of);
    let post = pre.push(c);
    assert forall|a: int, b: int| 0 <= a < b < nd.len() implies (#[trigger] nd[a]).date.before((#[trigger] nd[b]).date) by {
        assert(nd[a].date == old_days[a].date && nd[b].date == old_days[b].date);
    }
    assert forall|j: int| 0 <= j < nd.len() implies (#[trigger] nd[j]).day_of_week == nd[j].date.weekday_spec()
        && nd[j].classes == classes_on(post, nd[j].date) by {
        lemma_classes_on_push(pre, c, nd[j].date);
        if j != i {
            assert(nd[j] == old_days[j]);
            if old_days[j].date == c.date {
                assert(old_days[i].date.before(old_days[j].date) || old_days[j].date.before(old_days[i].date));
            }
        }
    }
    assert forall|kk: int| 0 <= kk < post.len() implies has_day(nd, (#[trigger] post[kk]).date) by {
        if kk < pre.len() {
            assert(post[kk] == pre[kk]);
            let j = choose|j: int| 0 <= j < old_days.len() && (#[trigger] old_days[j]).date == pre[kk].date;
            assert(nd[j].date == old_days[j].date);
        } else {
            assert(nd[i].date == post[kk].date);
        }
    }
    assert forall|j: int| 0 <= j < nd.len() implies has_classes_on(post, (#[trigger] nd[j]).date) by {
        assert(nd[j].date == old_days[j].date);
        let kk = choose|kk: int| 0 <= kk < pre.len() && (#[trigger] pre[kk]).date == old_days[j].date;
        assert(post[kk] == pre[kk]);
    }
}

proof fn lemma_group_insert(old_days: Seq<DayView>, pre: Seq<MpeiClassesView>, c: MpeiClassesView, i: int, day: DayView)
    requires
        days_of(old_days, pre),
        0 <= i <= old_days.len(),
        forall|j: int| 0 <= j < i ==> (#[trigger] old_days[j]).date.before(c.date),
        i < old_days.len() ==> !old_days[i].date.before(c.date) && old_days[i].date != c.date,
        day == (DayView { day_of_week: day.day_of_week, date: c.date, classes: seq![map_classes_spec(c)] }),
        day.day_of_week == c.date.weekday_spec(),
    ensures
        days_of(old_days.insert(i, day), pre.push(c)),
{
    reveal(days_of);
    let date = c.date;
    assert forall|j: int| 0 <= j < old_days.len() implies (#[trigger] old_days[j]).date != date by {
        if j > i {
            lemma_before_total(old_days[i].date, date);
            lemma_before_trans(date, old_days[i].date, old_days[j].date);
        }
    }
    assert forall|kk: int| 0 <= kk < pre.len() implies (#[trigger] pre[kk]).date != date by {
        let j = choose|j: int| 0 <= j < old_days.len() && (#[trigger] old_days[j]).date == pre[kk].date;
        assert(old_days[j].date != date);
    }
    lemma_classes_on_absent(pre, date);
    lemma_insert_sorted(old_days, i, day);
    lemma_insert_classes(old_days, pre, c, i, day);
    lemma_insert_cover(old_days, pre, c, i, day);
    lemma_days_of_fold(old_days.insert(i, day), pre.push(c));
}

proof fn lemma_days_of_fold(days: Seq<DayView>, s: Seq<MpeiClassesView>)
    requires
        forall|i: int, j: int| 0 <= i < j < days.len() ==> (#[trigger] days[i]).date.before((#[trigger] days[j]).date),
        forall|i: int| 0 <= i < days.len() ==> has_classes_on(s, (#[trigger] days[i]).date),
        forall|k: int| 0 <= k < s.len() ==> has_day(days, (#[trigger] s[k]).date),
        forall|i: int| 0 <= i < days.len() ==> (#[trigger] days[i]).day_of_week == days[i].date.weekday_spec()
            && days[i].classes == classes_on(s, days[i].date),
    ensures
        days_of(days, s),
{
    reveal(days_of);
}

proof fn lemma_insert_sorted(old_days: Seq<DayView>, i: int, day: DayView)
    requires
        0 <= i <= old_days.len(),
        forall|a: int, b: int| 0 <= a < b < old_days.len() ==> (#[trigger] old_days[a]).date.before((#[trigger] old_days[b]).date),
        forall|j: int| 0 <= j < i ==> (#[trigger] old_days[j]).date.before(day.date),
        i < old_days.len() ==> !old_days[i].date.before(day.date) && old_days[i].date != day.date,
    ensures
        forall|a: int, b: int| 0 <= a < b < old_days.insert(i, day).len() ==> (#[trigger] old_days.insert(i, day)[a]).date.before((#[trigger] old_days.insert(i, day)[b]).date),
{
    let nd = old_days.insert(i, day);
    let date = day.date;
    assert forall|a: int, b: int| 0 <= a < b < nd.len() implies (#[trigger] nd[a]).date.before((#[trigger] nd[b]).date) by {
        if b < i {
            assert(nd[a] == old_days[a] && nd[b] == old_days[b]);
        } else if b == i {
            assert(nd[a] == old_days[a]);
        } else if a == i {
            assert(nd[b] == old_days[b - 1]);
            lemma_before_total(old_days[i].date, date);
            if b - 1 > i {
                lemma_before_trans(date, old_days[i].date, old_days[b - 1].date);
            }
        } else if a < i {
            assert(nd[a] == old_days[a] && nd[b] == old_days[b - 1]);
        } else {
            assert(nd[a] == old_days[a - 1] && nd[b] == old_days[b - 1]);
        }
    }
}

proof fn lemma_insert_classes(old_days: Seq<DayView>, pre: Seq<MpeiClassesView>, c: MpeiClassesView, i: int, day: DayView)
    requires
        0 <= i <= old_days.len(),
        forall|j: int| 0 <= j < old_days.len() ==> (#[trigger] old_days[j]).day_of_week == old_days[j].date.weekday_spec()
            && old_days[j].classes == classes_on(pre, old_days[j].date),
        forall|j: int| 0 <= j < old_days.len() ==> (#[trigger] old_days[j]).date != c.date,
        classes_on(pre, c.date) == Seq::<ClassesView>::empty(),
        day == (DayView { day_of_week: day.day_of_week, date: c.date, classes: seq![map_classes_spec(c)] }),
        day.day_of_week == c.date.weekday_spec(),
    ensures
        forall|j: int| 0 <= j < old_days.insert(i, day).len() ==> (#[trigger] old_days.insert(i, day)[j]).day_of_week
            == old_days.insert(i, day)[j].date.weekday_spec()
            && old_days.insert(i, day)[j].classes == classes_on(pre.push(c), old_days.insert(i, day)[j].date),
{
    let nd = old_days.insert(i, day);
    assert forall|j: int| 0 <= j < nd.len() implies (#[trigger] nd[j]).day_of_week == nd[j].date.weekday_spec()
        && nd[j].classes == classes_on(pre.push(c), nd[j].date) by {
        lemma_classes_on_push(pre, c, nd[j].date);
        if j < i {
            assert(nd[j] == old_days[j]);
        } else if j > i {
            assert(nd[j] == old_days[j - 1]);
        } else {
            assert(Seq::<ClassesView>::empty().push(map_classes_spec(c)) =~= seq![map_classes_spec(c)]);
        }
    }
}

proof fn lemma_insert_cover(old_days: Seq<DayView>, pre: Seq<MpeiClassesView>, c: MpeiClassesView, i: int, day: DayView)
    requires
        0 <= i <= old_days.len(),
        forall|j: int| 0 <= j < old_days.len() ==> has_classes_on(pre, (#[trigger] old_days[j]).date),
        forall|k: int| 0 <= k < pre.len() ==> has_day(old_days, (#[trigger] pre[k]).date),
        day.date == c.date,
    ensures
        forall|j: int| 0 <= j < old_days.insert(i, day).len() ==> has_classes_on(pre.push(c), (#[trigger] old_days.insert(i, day)[j]).date),
        forall|k: int| 0 <= k < pre.push(c).len() ==> has_day(old_days.insert(i, day), (#[trigger] pre.push(c)[k]).date),
{
    let post = pre.push(c);
    let nd = old_days.insert(i, day);
    assert forall|kk: int| 0 <= kk < post.len() implies has_day(nd, (#[trigger] post[kk]).date) by {
        if kk < pre.len() {
            assert(post[kk] == pre[kk]);
            let j = choose|j: int| 0 <= j < old_days.len() && (#[trigger] old_days[j]).date == pre[kk].date;
            if j < i {
                assert(nd[j].date == old_days[j].date);
            } else {
                assert(nd[j + 1].date == old_days[j].date);
            }
        } else {
            assert(nd[i].date == post[kk].date);
        }
    }
    assert forall|j: int| 0 <= j < nd.len() implies has_classes_on(post, (#[trigger] nd[j]).date) by {
        if j == i {
            assert(post[pre.len() as int].date == nd[j].date);
        } else {
            let oj = if j < i { j } else { j - 1 };
            assert(nd[j] == old_days[oj]);
            let kk = choose|kk: int| 0 <= kk < pre.len() && (#[trigger] pre[kk]).date == old_days[oj].date;
            assert(post[kk] == pre[kk]);
        }
    }
}

/// Groups the mapped classes by date into days sorted by date.
pub fn group_by_day(mpei_classes: &Vec<MpeiClasses>) -> (days: Vec<Day>)
    requires
        classes_wf(mpei_views(mpei_classes@)),
    ensures
        days_of(days_views(days@), mpei_views(mpei_classes@)),
        forall|i: int| 0 <= i < days@.len() ==> (#[trigger] days@[i]).date.wf(),
{
    let ghost all = mpei_views(mpei_classes@);
    let mut days: Vec<Day> = Vec::new();
    proof {
        reveal(days_of);
        assert(days_views(days@) =~= Seq::<DayView>::empty());
    }
    let n = mpei_classes.len();
    let mut k: usize = 0;
    while k < n
        invariant
            n == mpei_classes@.len(),
            all == mpei_views(mpei_classes@),
            classes_wf(all),
            k <= n,
            days_of(days_views(days@), all.take(k as int)),
            forall|i: int| 0 <= i < days@.len() ==> (#[trigger] days@[i]).date.wf(),
        decreases n - k,
    {
        let c = &mpei_classes[k];
        let ghost pre = all.take(k as int);
        proof {
            assert(all.take(k + 1) =~= pre.push(all[k as int]));
            assert(all[k as int] == c@);
            assert(c@.date.wf() && c@.begin_lesson.wf());
        }
        let mapped = map_classes(c);
        let date = c.date;
        let ghost old_days = days_views(days@);
        let mut i: usize = 0;
        while i < days.len() && days[i].date.is_before(&date)
            invariant
                i <= days@.len(),
                forall|j: int| 0 <= j < i ==> (#[trigger] days@[j]).date.before(date),
            decreases days@.len() - i,
        {
            i = i + 1;
        }
        proof {
            assert forall|j: int| 0 <= j < i implies (#[trigger] old_days[j]).date.before(c@.date) by {
                assert(old_days[j].date == days@[j].date);
            }
        }
        if i < days.len() && days[i].date == date {
            let mut day = days.remove(i);
            let ghost old_classes = day.classes@;
            day.classes.push(mapped);
            proof {
                assert(classes_views(day.classes@) =~= classes_views(old_classes).push(map_classes_spec(c@)));
            }
            days.insert(i, day);
            proof {
                let nd = days_views(days@);
                assert forall|j: int| 0 <= j < nd.len() && j != i implies nd[j] == old_days[j] by {
                }
                lemma_group_append(old_days, nd, pre, c@, i as int);
            }
        } else {
            let mut cv: Vec<Classes> = Vec::new();
            cv.push(mapped);
            let day = Day { day_of_week: date.weekday_from_monday() as u8, date, classes: cv };
            proof {
                assert(classes_views(day.classes@) =~= seq![map_classes_spec(c@)]);
                if i < old_days.len() {
                    assert(old_days[i as int].date == days@[i as int].date);
                }
                lemma_group_insert(old_days, pre, c@, i as int, day@);
            }
            days.insert(i, day);
            proof {
                assert(days_views(days@) =~= old_days.insert(i as int, day@));
            }
        }
        k = k + 1;
    }
    assert(all.take(n as int) =~= all);
    days
}

proof fn lemma_classes_on_absent(s: Seq<MpeiClassesView>, d: Date)
    requires
        forall|kk: int| 0 <= kk < s.len() ==> (#[trigger] s[kk]).date != d,
    ensures
        classes_on(s, d) == Seq::<ClassesView>::empty(),
    decreases s.len(),
{
    if s.len() > 0 {
        assert forall|kk: int| 0 <= kk < s.drop_last().len() implies (#[trigger] s.drop_last()[kk]).date != d by {
            assert(s.drop_last()[kk] == s[kk]);
        }
        lemma_classes_on_absent(s.drop_last(), d);
        assert(s.last() == s[s.len() - 1]);
    }
}


/// Builds the one-week schedule of the given owner from the university's classes of that week.
/// The week number of the year is the ISO 8601 week of `week_start`.
pub fn map_schedule_models(
    name: ScheduleName,
    week_start: Date,
    schedule_id: i64,
    schedule_type: ScheduleType,
    mpei_classes: Vec<MpeiClasses>,
    week_of_semester: WeekOfSemester,
) -> (r: Schedule)
    requires
        week_start.wf(),
        classes_wf(mpei_views(mpei_classes@)),
    ensures
        r@.id == decimal(schedule_id as int),
        r@.name == name@,
        r@.schedule_type == schedule_type,
        r@.weeks.len() == 1,
        r@.weeks[0].week_of_semester == semester_week_number(week_of_semester),
        r@.weeks[0].week_of_year == iso_week_spec(week_start) as u8,
        r@.weeks[0].first_day_of_week == week_start,
        days_of(r@.weeks[0].days, mpei_views(mpei_classes@)),
{
    let days = group_by_day(&mpei_classes);
    let week = Week {
        week_of_semester: week_number(week_of_semester),
        week_of_year: week_start.iso_week() as u8,
        first_day_of_week: week_start,
        days,
    };
    let mut weeks: Vec<Week> = Vec::new();
    weeks.push(week);
    let r = Schedule {
        id: decimal_string(schedule_id),
        name: name.as_string(),
        schedule_type,
        weeks,
    };
    assert(r@.weeks[0] == week@);
    r
}

/// Runs of two or more whitespace characters.
pub const MULTIPLE_SPACES_PATTERN: &'static str = r"\s{2,}";

/// The project's model of one search result, or the error for an unknown schedule type.
pub open spec fn map_search_result_spec(r: MpeiSearchResultView) -> Result<SearchResultView, CommonErrorView> {
    match replace_spec(MULTIPLE_SPACES_PATTERN@, r.label, " "@) {
        None => Err(error_spec(ErrorKind::Internal, "Invalid name pattern"@)),
        Some(name) => match parse_schedule_type_spec(r.result_type) {
            None => Err(error_spec(ErrorKind::Internal, "Unknown schedule type: "@ + r.result_type)),
            Some(t) => Ok(SearchResultView {
                name,
                description: trim_spec(r.description),
                id: decimal(r.id as int),
                schedule_type: t,
            }),
        },
    }
}

/// The mapped search results, or the error of the first result that cannot be mapped.
pub open spec fn map_search_models_spec(s: Seq<MpeiSearchResultView>) -> Result<Seq<SearchResultView>, CommonErrorView>
    decreases s.len(),
{
    if s.len() == 0 {
        Ok(Seq::empty())
    } else {
        match map_search_models_spec(s.drop_last()) {
            Err(e) => Err(e),
            Ok(prev) => match map_search_result_spec(s.last()) {
                Err(e) => Err(e),
                Ok(r) => Ok(prev.push(r)),
            },
        }
    }
}

/// The project's model of one search result.
pub fn map_search_result(r: &MpeiSearchResult) -> (out: Result<ScheduleSearchResult, CommonError>)
    ensures
        out matches Ok(x) ==> map_search_result_spec(r@) == Ok::<SearchResultView, CommonErrorView>(x@),
        out matches Err(e) ==> map_search_result_spec(r@) == Err::<SearchResultView, CommonErrorView>(e@),
{
    let name = match replace_all(MULTIPLE_SPACES_PATTERN, r.label.as_str(), " ") {
        None => return Err(CommonError::internal("Invalid name pattern")),
        Some(name) => name,
    };
    match ScheduleType::from_str(r.result_type.as_str()) {
        Err(e) => {
            let message = e.describe();
            Err(CommonError::internal(message.as_str()))
        },
        Ok(t) => Ok(ScheduleSearchResult {
            name,
            description: trim(r.description.as_str()),
            id: decimal_string(r.id),
            schedule_type: t,
        }),
    }
}

/// Maps the university's search results; fails with an internal error on the first result
/// whose type is not a known schedule type.
pub fn map_search_models(mpei_results: Vec<MpeiSearchResult>) -> (out: Result<Vec<ScheduleSearchResult>, CommonError>)
    ensures
        out matches Ok(v) ==> map_search_models_spec(mpei_results_views(mpei_results@)) == Ok::<Seq<SearchResultView>, CommonErrorView>(results_views(v@)),
        out matches Err(e) ==> map_search_models_spec(mpei_results_views(mpei_results@)) == Err::<Seq<SearchResultView>, CommonErrorView>(e@),
{
    let ghost all = mpei_results_views(mpei_results@);
    let mut output: Vec<ScheduleSearchResult> = Vec::new();
    let n = mpei_results.len();
    proof {
        assert(all.take(0) =~= Seq::<MpeiSearchResultView>::empty());
        assert(results_views(output@) =~= Seq::<SearchResultView>::empty());
    }
    for k in 0..n
        invariant
            n == mpei_results@.len(),
            all == mpei_results_views(mpei_results@),
            map_search_models_spec(all.take(k as int)) == Ok::<Seq<SearchResultView>, CommonErrorView>(results_views(output@)),
    {
        proof {
            assert(all.take(k + 1).drop_last() =~= all.take(k as int));
            assert(all.take(k + 1).last() == mpei_results@[k as int]@);
        }
        match map_search_result(&mpei_results[k]) {
            Err(e) => {
                proof {
                    lemma_search_models_error_stays(all, k + 1);
                }
                return Err(e);
            },
            Ok(x) => {
                let ghost before = output@;
                let ghost xv = x@;
                output.push(x);
                proof {
                    assert(results_views(output@) =~= results_views(before).push(xv));
                }
            },
        }
    }
    proof {
        assert(all.take(n as int) =~= all);
    }
    Ok(output)
}

proof fn lemma_search_models_error_stays(s: Seq<MpeiSearchResultView>, k: int)
    requires
        0 <= k <= s.len(),
        map_search_models_spec(s.take(k)) is Err,
    ensures
        map_search_models_spec(s) == map_search_models_spec(s.take(k)),
    decreases s.len() - k,
{
    if k == s.len() {
        assert(s.take(k) =~= s);
    } else {
        assert(s.take(k + 1).drop_last() =~= s.take(k));
        lemma_search_models_error_stays(s, k + 1);
    }
}

/// A date of the university's backend, written `yyyy.mm.dd`.
pub fn parse_mpei_date(s: &str) -> (r: Option<Date>)
    ensures
        r == (match chrono_parse_date(s@, "%Y.%m.%d"@) {
            Some((y, m, d)) => Some(Date { year: y, month: m, day: d }),
            None => None,
        }),
        r matches Some(d) ==> d.wf(),
{
    parse_date(s, "%Y.%m.%d")
}

/// A time of day of the university's backend, written `hh:mm`.
pub fn parse_mpei_time(s: &str) -> (r: Option<Time>)
    ensures
        r == (match chrono_parse_time(s@, "%H:%M"@) {
            Some((secs, nano)) => Some(Time { secs, nano }),
            None => None,
        }),
{
    parse_time(s, "%H:%M")
}

/// The pairs follow the university's bell schedule: classes starting at 09:20, 11:10, 13:45,
/// 15:35, 17:20, 18:55 and 20:30 are pairs 1 to 7 in that order; any other start has no
/// pair number (`-1`).
pub proof fn lemma_pairs_follow_the_bells(start: Time)
    ensures
        start.hour_spec() == 9 && start.minute_spec() == 20 ==> classes_number_spec(start) == 1,
        start.hour_spec() == 11 && start.minute_spec() == 10 ==> classes_number_spec(start) == 2,
        start.hour_spec() == 13 && start.minute_spec() == 45 ==> classes_number_spec(start) == 3,
        start.hour_spec() == 15 && start.minute_spec() == 35 ==> classes_number_spec(start) == 4,
        start.hour_spec() == 17 && start.minute_spec() == 20 ==> classes_number_spec(start) == 5,
        start.hour_spec() == 18 && start.minute_spec() == 55 ==> classes_number_spec(start) == 6,
        start.hour_spec() == 20 && start.minute_spec() == 30 ==> classes_number_spec(start) == 7,
        classes_number_spec(start) == -1 || 1 <= classes_number_spec(start) <= 7,
{
}

/// Two classes get the same pair number only when they start at the same hour and minute
/// (or neither starts at a bell).
pub proof fn lemma_pair_numbers_distinct(a: Time, b: Time)
    requires
        classes_number_spec(a) != -1,
        classes_number_spec(a) == classes_number_spec(b),
    ensures
        a.hour_spec() == b.hour_spec(),
        a.minute_spec() == b.minute_spec(),
{
}

/// A kind of work is classified by the word it contains, lecture first: a kind naming a
/// lecture ("лек") is a lecture; one naming a lab ("лаб") and no lecture is a lab; one naming
/// a practice ("прак") and neither a lecture nor a lab is a practice. Letter case does not
/// matter.
pub proof fn lemma_kind_of_work(raw: Seq<char>)
    ensures
        contains_spec(lowercase(raw), "лек"@) ==> classes_type_spec(raw) == ClassesType::Lecture,
        !contains_spec(lowercase(raw), "лек"@) && contains_spec(lowercase(raw), "лаб"@)
            ==> classes_type_spec(raw) == ClassesType::Lab,
        !contains_spec(lowercase(raw), "лек"@) && !contains_spec(lowercase(raw), "лаб"@)
            && contains_spec(lowercase(raw), "прак"@) ==> classes_type_spec(raw) == ClassesType::Practice,
        classes_type_spec(raw) == ClassesType::Lecture ==> contains_spec(lowercase(raw), "лек"@),
        classes_type_spec(raw) == ClassesType::Lab ==> contains_spec(lowercase(raw), "лаб"@),
        classes_type_spec(raw) == ClassesType::Practice ==> contains_spec(lowercase(raw), "прак"@),
{
}

} // verus!
