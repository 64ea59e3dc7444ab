//! Exceptions to the usual numbering of study weeks, read from a TOML document
//! whose top-level keys are years and whose sections name the shifted semesters.
use vstd::prelude::*;
use crate::calendar::{Date, parse_date, chrono_parse_date, div_toward_zero};
use crate::mapping::WeekOfSemester;
use crate::text::{chars_of, parse_int, parse_int_spec, str_equals};

verus! {

/// A year of the calendar.
#[derive(Clone, Copy, PartialEq, Eq, Structural, Debug, Hash)]
pub struct Year(pub i32);

impl Year {
    pub fn new(year: i32) -> (r: Year)
        ensures
            r.0 == year,
    {
        Year(year)
    }
}

/// Type of semester with non-standard study week numbers.
#[derive(Clone, Copy, PartialEq, Eq, Structural, Debug, Hash)]
pub enum ShiftedSemester {
    Spring,
    Fall,
}

impl ShiftedSemester {
    /// The key of the semester's section in a shift document.
    pub open spec fn name_spec(self) -> Seq<char> {
        match self {
            ShiftedSemester::Spring => "spring"@,
            ShiftedSemester::Fall => "fall"@,
        }
    }

    pub fn as_str(&self) -> (r: &'static str)
        ensures
            r@ == self.name_spec(),
    {
        match self {
            ShiftedSemester::Spring => "spring",
            ShiftedSemester::Fall => "fall",
        }
    }
}

/// A rule that describes the shift in the numbers of academic weeks of a particular semester.
#[derive(Clone, Copy, PartialEq, Eq, Structural, Debug)]
pub struct ShiftRule {
    /// Points to first study day of semester.
    pub first_day: Date,
    /// Number of the academic week with the first study day.
    pub week_number: Option<i8>,
}

/// A TOML value, as far as a shift document is read: strings, integers and tables;
/// every other kind of value is `Other`.
#[derive(Debug)]
pub enum TomlValue {
    Text(String),
    Integer(i64),
    /// The entries of a table in the order in which the parser hands them out.
    Table(Vec<(String, TomlValue)>),
    Other,
}

/// Why a shift document was refused.
#[derive(Clone, Debug)]
pub enum ShiftError {
    /// The text is not a TOML document.
    InvalidToml,
    /// A top-level key is not a year (an `i32`).
    InvalidYear(String),
    /// A semester's `first-day` lies in another year than its section.
    WrongYear { year: i32, semester: ShiftedSemester, first_day: Date },
    /// A semester's section has no valid `first-day` date.
    MissingFirstDay { year: i32, semester: ShiftedSemester },
}

/// The top-level entries of the TOML document `text`, or `None` where the text is no
/// TOML document. (Named after `toml::Table`'s parser, which it stands for.)
pub uninterp spec fn toml_document(text: Seq<char>) -> Option<Vec<(String, TomlValue)>>;

#[verifier::external_type_specification]
#[verifier::external_body]
pub struct ExTomlValue(toml::Value);

/// Turns a value parsed by the `toml` crate into this module's model of it, variant by
/// variant; tables keep the parser's order of entries.
#[verifier::external_body]
fn toml_value(value: toml::Value) -> TomlValue {
    match value {
        toml::Value::String(text) => TomlValue::Text(text),
        toml::Value::Integer(number) => TomlValue::Integer(number),
        toml::Value::Table(table) => {
            let mut entries = Vec::new();
            for (key, item) in table {
                entries.push((key, toml_value(item)));
            }
            TomlValue::Table(entries)
        },
        _ => TomlValue::Other,
    }
}

/// Parses `text` with `str::parse::<toml::Table>` and hands out the document's top-level
/// entries. Nothing is claimed of the parser beyond that its result depends on the text
/// alone.
#[verifier::external_body]
fn parse_toml(text: &str) -> (r: Option<Vec<(String, TomlValue)>>)
    ensures
        r == toml_document(text@),
{
    match text.parse::<toml::Table>() {
        Ok(table) => {
            let mut entries = Vec::new();
            for (key, value) in table {
                entries.push((key, toml_value(value)));
            }
            Some(entries)
        },
        Err(_) => None,
    }
}

/// The value under `key` in the entries of a table (the first one, should a key repeat).
pub open spec fn entry_value(entries: Seq<(String, TomlValue)>, key: Seq<char>) -> Option<TomlValue>
    decreases entries.len(),
{
    if entries.len() == 0 {
        None
    } else if entries[0].0@ == key {
        Some(entries[0].1)
    } else {
        entry_value(entries.skip(1), key)
    }
}

/// `toml::Value::get` with a string key: the value under `key` where `value` is a table.
pub open spec fn toml_lookup(value: TomlValue, key: Seq<char>) -> Option<TomlValue> {
    match value {
        TomlValue::Table(entries) => entry_value(entries@, key),
        _ => None,
    }
}

/// The format of a `first-day` date.
pub open spec fn date_format() -> Seq<char> {
    "%Y-%m-%d"@
}

/// The `first-day` of a semester's rule: a string field holding a date.
pub open spec fn rule_first_day(rule: TomlValue) -> Option<Date> {
    match toml_lookup(rule, "first-day"@) {
        Some(TomlValue::Text(s)) => match chrono_parse_date(s@, date_format()) {
            Some((y, m, d)) => Some(Date { year: y, month: m, day: d }),
            None => None,
        },
        _ => None,
    }
}

/// The `week-number` of a semester's rule: an integer field, cut to its lowest byte.
pub open spec fn rule_week_number(rule: TomlValue) -> Option<i8> {
    match toml_lookup(rule, "week-number"@) {
        Some(TomlValue::Integer(n)) => Some(n as i8),
        _ => None,
    }
}

/// Applies the section of `semester` (if the year's section has one) to the rules read so far.
pub open spec fn semester_step(
    rules: Map<(i32, ShiftedSemester), ShiftRule>,
    year: i32,
    semester: ShiftedSemester,
    section: TomlValue,
) -> Result<Map<(i32, ShiftedSemester), ShiftRule>, ShiftError> {
    match toml_lookup(section, semester.name_spec()) {
        None => Ok(rules),
        Some(rule) => match rule_first_day(rule) {
            None => Err(ShiftError::MissingFirstDay { year, semester }),
            Some(first_day) => if first_day.year != year {
                Err(ShiftError::WrongYear { year, semester, first_day })
            } else {
                Ok(rules.insert((year, semester), ShiftRule { first_day, week_number: rule_week_number(rule) }))
            },
        },
    }
}

/// Applies one top-level entry: its key must be a year; then spring, then fall.
pub open spec fn year_step(
    rules: Map<(i32, ShiftedSemester), ShiftRule>,
    key: String,
    section: TomlValue,
) -> Result<Map<(i32, ShiftedSemester), ShiftRule>, ShiftError> {
    match parse_int_spec(key@, i32::MIN as int, i32::MAX as int) {
        None => Err(ShiftError::InvalidYear(key)),
        Some(y) => match semester_step(rules, y as i32, ShiftedSemester::Spring, section) {
            Err(e) => Err(e),
            Ok(after_spring) => semester_step(after_spring, y as i32, ShiftedSemester::Fall, section),
        },
    }
}

/// The rules of a document's entries, read in order; the first refusal wins.
pub open spec fn shift_rules(entries: Seq<(String, TomlValue)>) -> Result<Map<(i32, ShiftedSemester), ShiftRule>, ShiftError>
    decreases entries.len(),
{
    if entries.len() == 0 {
        Ok(Map::empty())
    } else {
        match shift_rules(entries.drop_last()) {
            Err(e) => Err(e),
            Ok(rules) => year_step(rules, entries.last().0, entries.last().1),
        }
    }
}

/// What reading the text `text` as a shift document gives.
pub open spec fn shift_document(text: Seq<char>) -> Result<Map<(i32, ShiftedSemester), ShiftRule>, ShiftError> {
    match toml_document(text) {
        None => Err(ShiftError::InvalidToml),
        Some(entries) => shift_rules(entries@),
    }
}

pub open spec fn rule_key(entry: (i32, ShiftedSemester, ShiftRule)) -> (i32, ShiftedSemester) {
    (entry.0, entry.1)
}

/// The map of a list of rules, later entries overriding earlier ones.
pub open spec fn rules_map(s: Seq<(i32, ShiftedSemester, ShiftRule)>) -> Map<(i32, ShiftedSemester), ShiftRule>
    decreases s.len(),
{
    if s.len() == 0 {
        Map::empty()
    } else {
        rules_map(s.drop_last()).insert(rule_key(s.last()), s.last().2)
    }
}

pub open spec fn keys_distinct(s: Seq<(i32, ShiftedSemester, ShiftRule)>) -> bool {
    forall|i: int, j: int| 0 <= i < j < s.len() ==> rule_key(#[trigger] s[i]) != rule_key(#[trigger] s[j])
}

proof fn lemma_rules_map_has(s: Seq<(i32, ShiftedSemester, ShiftRule)>, i: int)
    requires
        keys_distinct(s),
        0 <= i < s.len(),
    ensures
        rules_map(s).dom().contains(rule_key(s[i])),
        rules_map(s)[rule_key(s[i])] == s[i].2,
    decreases s.len(),
{
    if i < s.len() - 1 {
        assert(s.drop_last()[i] == s[i]);
        lemma_rules_map_has(s.drop_last(), i);
        assert(rule_key(s[i]) != rule_key(s[s.len() - 1]));
    }
}

proof fn lemma_rules_map_lacks(s: Seq<(i32, ShiftedSemester, ShiftRule)>, k: (i32, ShiftedSemester))
    requires
        forall|i: int| 0 <= i < s.len() ==> rule_key(#[trigger] s[i]) != k,
    ensures
        !rules_map(s).dom().contains(k),
    decreases s.len(),
{
    if s.len() > 0 {
        assert forall|i: int| 0 <= i < s.drop_last().len() implies rule_key(#[trigger] s.drop_last()[i]) != k by {
            assert(s.drop_last()[i] == s[i]);
        }
        lemma_rules_map_lacks(s.drop_last(), k);
        assert(rule_key(s[s.len() - 1]) != k);
    }
}

proof fn lemma_rules_map_update(s: Seq<(i32, ShiftedSemester, ShiftRule)>, i: int, rule: ShiftRule)
    requires
        keys_distinct(s),
        0 <= i < s.len(),
    ensures
        rules_map(s.update(i, (s[i].0, s[i].1, rule))) =~= rules_map(s).insert(rule_key(s[i]), rule),
    decreases s.len(),
{
    let t = s.update(i, (s[i].0, s[i].1, rule));
    if i == s.len() - 1 {
        assert(t.drop_last() =~= s.drop_last());
        let k = rule_key(s[i]);
        assert forall|j: int| 0 <= j < s.drop_last().len() implies rule_key(#[trigger] s.drop_last()[j]) != k by {
            assert(s.drop_last()[j] == s[j]);
        }
        lemma_rules_map_lacks(s.drop_last(), k);
    } else {
        assert(t.drop_last() =~= s.drop_last().update(i, (s[i].0, s[i].1, rule)));
        assert(s.drop_last()[i] == s[i]);
        lemma_rules_map_update(s.drop_last(), i, rule);
        assert(rule_key(s[i]) != rule_key(s[s.len() - 1]));
    }
}

proof fn lemma_rules_map_len(s: Seq<(i32, ShiftedSemester, ShiftRule)>)
    requires
        keys_distinct(s),
    ensures
        rules_map(s).dom().finite(),
        rules_map(s).dom().len() == s.len(),
    decreases s.len(),
{
    if s.len() > 0 {
        let k = rule_key(s.last());
        lemma_rules_map_len(s.drop_last());
        assert forall|j: int| 0 <= j < s.drop_last().len() implies rule_key(#[trigger] s.drop_last()[j]) != k by {
            assert(s.drop_last()[j] == s[j]);
        }
        lemma_rules_map_lacks(s.drop_last(), k);
    }
}

/// Structure remembering exceptions to the rules in the numbering of academic weeks.
#[derive(Debug)]
pub struct ScheduleShift {
    rules: Vec<(i32, ShiftedSemester, ShiftRule)>,
}

impl View for ScheduleShift {
    type V = Map<(i32, ShiftedSemester), ShiftRule>;

    closed spec fn view(&self) -> Map<(i32, ShiftedSemester), ShiftRule> {
        rules_map(self.rules@)
    }
}

impl ScheduleShift {
    /// No two rules are for the same year and semester, and every first day is a date.
    pub closed spec fn wf(&self) -> bool {
        &&& keys_distinct(self.rules@)
        &&& forall|i: int| 0 <= i < self.rules@.len() ==> (#[trigger] self.rules@[i]).2.first_day.wf()
    }

    /// A shift with no rules.
    pub fn empty() -> (r: ScheduleShift)
        ensures
            r.wf(),
            r@ == Map::<(i32, ShiftedSemester), ShiftRule>::empty(),
    {
        ScheduleShift { rules: Vec::new() }
    }

    fn find(&self, year: i32, semester: ShiftedSemester) -> (r: Option<usize>)
        requires
            self.wf(),
        ensures
            r matches Some(i) ==> i < self.rules@.len() && rule_key(self.rules@[i as int]) == (year, semester),
            r is None ==> forall|i: int| 0 <= i < self.rules@.len() ==> rule_key(#[trigger] self.rules@[i]) != (year, semester),
    {
        let mut i: usize = 0;
        while i < self.rules.len()
            invariant
                i <= self.rules@.len(),
                forall|j: int| 0 <= j < i ==> rule_key(#[trigger] self.rules@[j]) != (year, semester),
            decreases self.rules@.len() - i,
        {
            if self.rules[i].0 == year && self.rules[i].1 == semester {
                return Some(i);
            }
            i = i + 1;
        }
        None
    }

    /// Sets the rule of a year's semester.
    pub fn insert(&mut self, year: i32, semester: ShiftedSemester, rule: ShiftRule)
        requires
            old(self).wf(),
            rule.first_day.wf(),
        ensures
            final(self).wf(),
            final(self)@ == old(self)@.insert((year, semester), rule),
    {
        match self.find(year, semester) {
            Some(i) => {
                proof {
                    lemma_rules_map_update(self.rules@, i as int, rule);
                }
                self.rules.set(i, (year, semester, rule));
                proof {
                    assert forall|a: int, b: int| 0 <= a < b < self.rules@.len() implies rule_key(#[trigger] self.rules@[a]) != rule_key(#[trigger] self.rules@[b]) by {
                        assert(rule_key(self.rules@[a]) == rule_key(old(self).rules@[a]));
                        assert(rule_key(self.rules@[b]) == rule_key(old(self).rules@[b]));
                    }
                }
            },
            None => {
                let ghost before = self.rules@;
                self.rules.push((year, semester, rule));
                proof {
                    assert(self.rules@.drop_last() =~= before);
                    assert forall|a: int, b: int| 0 <= a < b < self.rules@.len() implies rule_key(#[trigger] self.rules@[a]) != rule_key(#[trigger] self.rules@[b]) by {
                        if b < before.len() {
                            assert(self.rules@[a] == before[a]);
                            assert(self.rules@[b] == before[b]);
                        } else {
                            assert(self.rules@[a] == before[a]);
                        }
                    }
                }
            },
        }
    }

    /// Get shift rule for specified year and semester.
    pub fn get(&self, year: Year, semester: ShiftedSemester) -> (r: Option<&ShiftRule>)
        requires
            self.wf(),
        ensures
            self@.dom().contains((year.0, semester)) ==> r == Some(&self@[(year.0, semester)]),
            !self@.dom().contains((year.0, semester)) ==> r is None,
            r matches Some(rule) ==> rule.first_day.wf(),
    {
        match self.find(year.0, semester) {
            Some(i) => {
                proof {
                    lemma_rules_map_has(self.rules@, i as int);
                }
                Some(&self.rules[i].2)
            },
            None => {
                proof {
                    lemma_rules_map_lacks(self.rules@, (year.0, semester));
                }
                None
            },
        }
    }

    /// Number of rules.
    pub fn len(&self) -> (r: usize)
        requires
            self.wf(),
        ensures
            r == self@.dom().len(),
    {
        proof {
            lemma_rules_map_len(self.rules@);
        }
        self.rules.len()
    }
}

/// Once a prefix of the entries is refused, the whole document is, with the same error.
proof fn lemma_shift_rules_refused(s: Seq<(String, TomlValue)>, k: int, e: ShiftError)
    requires
        0 <= k <= s.len(),
        shift_rules(s.take(k)) == Err::<Map<(i32, ShiftedSemester), ShiftRule>, ShiftError>(e),
    ensures
        shift_rules(s) == Err::<Map<(i32, ShiftedSemester), ShiftRule>, ShiftError>(e),
    decreases s.len() - k,
{
    if k == s.len() {
        assert(s.take(k) =~= s);
    } else {
        assert(s.take(k + 1).drop_last() =~= s.take(k));
        lemma_shift_rules_refused(s, k + 1, e);
    }
}

/// The value under `key` among a table's entries.
fn entry_of<'a>(entries: &'a Vec<(String, TomlValue)>, key: &str) -> (r: Option<&'a TomlValue>)
    ensures
        match r {
            Some(v) => entry_value(entries@, key@) == Some(*v),
            None => entry_value(entries@, key@) is None,
        },
{
    let mut i: usize = 0;
    assert(entries@.skip(0) =~= entries@);
    while i < entries.len()
        invariant
            i <= entries@.len(),
            entry_value(entries@, key@) == entry_value(entries@.skip(i as int), key@),
        decreases entries@.len() - i,
    {
        let ghost rest = entries@.skip(i as int);
        assert(rest[0] == entries@[i as int]);
        assert(rest.skip(1) =~= entries@.skip(i + 1));
        if str_equals(entries[i].0.as_str(), key) {
            return Some(&entries[i].1);
        }
        i = i + 1;
    }
    assert(entries@.skip(i as int).len() == 0);
    None
}

/// `toml::Value::get` with a string key.
fn toml_get<'a>(value: &'a TomlValue, key: &str) -> (r: Option<&'a TomlValue>)
    ensures
        match r {
            Some(v) => toml_lookup(*value, key@) == Some(*v),
            None => toml_lookup(*value, key@) is None,
        },
{
    match value {
        TomlValue::Table(entries) => entry_of(entries, key),
        _ => None,
    }
}

fn first_day_of(rule: &TomlValue) -> (r: Option<Date>)
    ensures
        r == rule_first_day(*rule),
        r matches Some(d) ==> d.wf(),
{
    match toml_get(rule, "first-day") {
        Some(TomlValue::Text(s)) => parse_date(s.as_str(), "%Y-%m-%d"),
        _ => None,
    }
}

fn week_number_of(rule: &TomlValue) -> (r: Option<i8>)
    ensures
        r == rule_week_number(*rule),
{
    match toml_get(rule, "week-number") {
        Some(TomlValue::Integer(n)) => Some(*n as i8),
        _ => None,
    }
}

/// Reads the section of `semester` in a year's section into `shift`.
fn apply_semester(shift: &mut ScheduleShift, year: i32, semester: ShiftedSemester, section: &TomlValue) -> (r: Result<(), ShiftError>)
    requires
        old(shift).wf(),
    ensures
        final(shift).wf(),
        match semester_step(old(shift)@, year, semester, *section) {
            Ok(m) => r is Ok && final(shift)@ == m,
            Err(e) => r == Err::<(), ShiftError>(e),
        },
{
    match toml_get(section, semester.as_str()) {
        None => Ok(()),
        Some(rule) => match first_day_of(rule) {
            None => Err(ShiftError::MissingFirstDay { year, semester }),
            Some(first_day) => {
                if first_day.year != year {
                    Err(ShiftError::WrongYear { year, semester, first_day })
                } else {
                    let week_number = week_number_of(rule);
                    shift.insert(year, semester, ShiftRule { first_day, week_number });
                    Ok(())
                }
            },
        },
    }
}

impl ScheduleShift {
    /// Reads a shift document: a TOML table whose keys are years, each holding an optional
    /// `spring` and `fall` section with a required `first-day` (`%Y-%m-%d`, in that year)
    /// and an optional integer `week-number`.
    pub fn from_str(text: &str) -> (r: Result<ScheduleShift, ShiftError>)
        ensures
            match shift_document(text@) {
                Ok(m) => r matches Ok(s) && s.wf() && s@ == m,
                Err(e) => r == Err::<ScheduleShift, ShiftError>(e),
            },
    {
        match parse_toml(text) {
            None => Err(ShiftError::InvalidToml),
            Some(entries) => shift_from_entries(entries),
        }
    }
}

/// The shift that the top-level entries of a shift document describe: each key must be a
/// year, whose `spring` and `fall` sections (where present) need a `first-day` in that year;
/// the first refusal wins.
pub fn shift_from_entries(entries: Vec<(String, TomlValue)>) -> (r: Result<ScheduleShift, ShiftError>)
    ensures
        match shift_rules(entries@) {
            Ok(m) => r matches Ok(s) && s.wf() && s@ == m,
            Err(e) => r == Err::<ScheduleShift, ShiftError>(e),
        },
{
    let mut shift = ScheduleShift::empty();
    let mut i: usize = 0;
    assert(entries@.take(0) =~= Seq::<(String, TomlValue)>::empty());
    while i < entries.len()
        invariant
            i <= entries@.len(),
            shift.wf(),
            shift_rules(entries@.take(i as int)) == Ok::<Map<(i32, ShiftedSemester), ShiftRule>, ShiftError>(shift@),
        decreases entries@.len() - i,
    {
        assert(entries@.take(i + 1).drop_last() =~= entries@.take(i as int));
        assert(entries@.take(i + 1).last() == entries@[i as int]);
        let key = &entries[i].0;
        let section = &entries[i].1;
        let key_chars = chars_of(key.as_str());
        let year: i32 = match parse_int(key_chars.as_slice(), i32::MIN as i64, i32::MAX as i64) {
            None => {
                proof {
                    lemma_shift_rules_refused(entries@, i + 1, ShiftError::InvalidYear(*key));
                }
                return Err(ShiftError::InvalidYear(key.clone()));
            },
            Some(y) => y as i32,
        };
        match apply_semester(&mut shift, year, ShiftedSemester::Spring, section) {
            Err(e) => {
                proof {
                    lemma_shift_rules_refused(entries@, i + 1, e);
                }
                return Err(e);
            },
            Ok(()) => {},
        }
        match apply_semester(&mut shift, year, ShiftedSemester::Fall, section) {
            Err(e) => {
                proof {
                    lemma_shift_rules_refused(entries@, i + 1, e);
                }
                return Err(e);
            },
            Ok(()) => {},
        }
        i = i + 1;
    }
    assert(entries@.take(i as int) =~= entries@);
    Ok(shift)
}

/// The semester a day falls in: January belongs to the fall semester of the year before,
/// February to August to the spring semester, September to December to the fall semester.
pub open spec fn semester_of(d: Date) -> (i32, ShiftedSemester) {
    if d.month == 1 {
        ((d.year - 1) as i32, ShiftedSemester::Fall)
    } else if d.month <= 8 {
        (d.year, ShiftedSemester::Spring)
    } else {
        (d.year, ShiftedSemester::Fall)
    }
}

/// The number of the study week that starts on `week_start`: whole weeks (counted toward
/// zero) from the Monday of the week of the semester's first study day, plus the rule's week
/// number (1 where it has none). A week before that Monday's week, one numbered above 17 or
/// below 0, and a week of a semester without a rule are not study weeks.
pub open spec fn week_of_semester_spec(week_start: Date, rules: Map<(i32, ShiftedSemester), ShiftRule>) -> WeekOfSemester {
    let key = semester_of(week_start);
    if rules.dom().contains(key) {
        let rule = rules[key];
        let first_monday = rule.first_day.day_number() - (rule.first_day.weekday_spec() - 1);
        let weeks = div_toward_zero(week_start.day_number() - first_monday, 7);
        let number = weeks + match rule.week_number {
            Some(n) => n as int,
            None => 1,
        };
        if weeks >= 0 && 0 <= number <= 17 {
            WeekOfSemester::Studying(number as u8)
        } else {
            WeekOfSemester::NonStudying
        }
    } else {
        WeekOfSemester::NonStudying
    }
}

/// The week of the semester of the week that starts on `week_start`, by the rules of `shift`.
pub fn week_of_semester(week_start: Date, shift: &ScheduleShift) -> (r: WeekOfSemester)
    requires
        week_start.wf(),
        shift.wf(),
    ensures
        r == week_of_semester_spec(week_start, shift@),
{
    let (year, semester) = if week_start.month == 1 {
        (week_start.year - 1, ShiftedSemester::Fall)
    } else if week_start.month <= 8 {
        (week_start.year, ShiftedSemester::Spring)
    } else {
        (week_start.year, ShiftedSemester::Fall)
    };
    match shift.get(Year::new(year), semester) {
        None => WeekOfSemester::NonStudying,
        Some(rule) => {
            let first = rule.first_day;
            let first_monday: i128 = first.days_since_epoch() as i128 - (first.weekday_from_monday() as i128 - 1);
            let diff: i128 = week_start.days_since_epoch() as i128 - first_monday;
            let weeks: i128 = if diff >= 0 { diff / 7 } else { -((-diff) / 7) };
            let start: i128 = match rule.week_number {
                Some(n) => n as i128,
                None => 1,
            };
            let number: i128 = weeks + start;
            if weeks >= 0 && 0 <= number && number <= 17 {
                WeekOfSemester::Studying(number as u8)
            } else {
                WeekOfSemester::NonStudying
            }
        },
    }
}

/// Every rule a shift keeps has its first day in the year it is filed under.
pub open spec fn rules_in_their_year(m: Map<(i32, ShiftedSemester), ShiftRule>) -> bool {
    forall|k: (i32, ShiftedSemester)| #[trigger] m.dom().contains(k) ==> m[k].first_day.year == k.0
}

proof fn lemma_step_keeps_years(rules: Map<(i32, ShiftedSemester), ShiftRule>, key: String, section: TomlValue)
    requires
        rules_in_their_year(rules),
    ensures
        year_step(rules, key, section) matches Ok(m) ==> rules_in_their_year(m),
{
}

proof fn lemma_shift_rules_years(entries: Seq<(String, TomlValue)>)
    ensures
        shift_rules(entries) matches Ok(m) ==> rules_in_their_year(m),
    decreases entries.len(),
{
    if entries.len() > 0 {
        lemma_shift_rules_years(entries.drop_last());
        if let Ok(rules) = shift_rules(entries.drop_last()) {
            lemma_step_keeps_years(rules, entries.last().0, entries.last().1);
        }
    }
}

/// A shift document that is accepted only holds rules whose first day lies in the year they
/// are filed under: a rule for another year is refused, never kept.
pub proof fn lemma_shift_rules_in_their_year(text: Seq<char>)
    ensures
        shift_document(text) matches Ok(m) ==> rules_in_their_year(m),
{
    if let Some(entries) = toml_document(text) {
        lemma_shift_rules_years(entries@);
    }
}

} // verus!
