//! Validated schedule owner names and search queries.
use vstd::prelude::*;
use crate::errors::{error_spec, CommonError, CommonErrorView, ErrorKind};
use crate::models::ScheduleType;
use crate::pattern::{match_spec, test_match, replace_all, replace_spec, regex_compiles, regex_replace_all};
use crate::text::{copy_string, chars_of, string_from_chars, to_uppercase, trim, trim_spec, uppercase};

verus! {

/// Group names: five to twenty Cyrillic letters, digits or dashes in a row.
pub const VALID_GROUP_NAME_PATTERN: &'static str = "[а-яА-Я0-9-]{5,20}";

/// Group names whose number after the first dash has one digit only.
pub const SHORTENED_GROUP_NAME_PATTERN: &'static str = r".*-\d[^0-9]*-.*";

/// Person names: up to five Cyrillic words separated by spaces or dashes.
pub const VALID_PERSON_NAME_PATTERN: &'static str = r"([а-яА-Я]+(\s|[-])?){1,5}";

/// Runs of whitespace.
pub const SPACES_PATTERN: &'static str = r"\s+";

/// Shortest accepted search query.
pub const MIN_QUERY_LENGTH: usize = 2;

/// Longest accepted search query.
pub const MAX_QUERY_LENGTH: usize = 50;

/// Message of the error given when a pattern of this module does not compile.
pub open spec fn bad_pattern_message() -> Seq<char> {
    "Invalid name pattern"@
}

/// `s` with a `0` inserted after its first dash, as `replacen('-', "-0", 1)` gives it.
pub open spec fn pad_first_dash(s: Seq<char>) -> Seq<char> {
    if exists|i: int| 0 <= i < s.len() && s[i] == '-' {
        let i = choose|i: int| 0 <= i < s.len() && s[i] == '-' && forall|j: int| 0 <= j < i ==> s[j] != '-';
        s.take(i + 1).push('0') + s.skip(i + 1)
    } else {
        s
    }
}

/// Result of validating a schedule owner's name.
pub open spec fn schedule_name_spec(name: Seq<char>, t: ScheduleType) -> Result<Seq<char>, CommonErrorView> {
    match t {
        ScheduleType::Group => match match_spec(VALID_GROUP_NAME_PATTERN@, name) {
            None => Err(error_spec(ErrorKind::Internal, bad_pattern_message())),
            Some(false) => Err(error_spec(ErrorKind::User, "Invalid group name"@)),
            Some(true) => {
                let upper = uppercase(name);
                match match_spec(SHORTENED_GROUP_NAME_PATTERN@, upper) {
                    None => Err(error_spec(ErrorKind::Internal, bad_pattern_message())),
                    Some(true) => Ok(pad_first_dash(upper)),
                    Some(false) => Ok(upper),
                }
            },
        },
        ScheduleType::Person => match match_spec(VALID_PERSON_NAME_PATTERN@, name) {
            None => Err(error_spec(ErrorKind::Internal, bad_pattern_message())),
            Some(false) => Err(error_spec(ErrorKind::User, "Invalid person name"@)),
            Some(true) => Ok(name),
        },
        ScheduleType::Room => Err(error_spec(ErrorKind::Internal, "Room name validation is not implemented yet"@)),
    }
}

/// Result of validating a search query.
pub open spec fn search_query_spec(query: Seq<char>) -> Result<Seq<char>, CommonErrorView> {
    if query.len() < MIN_QUERY_LENGTH {
        Err(error_spec(ErrorKind::User, "The search query must be 2 characters or more"@))
    } else if query.len() > MAX_QUERY_LENGTH {
        Err(error_spec(ErrorKind::User, "Too long search query"@))
    } else {
        match replace_spec(SPACES_PATTERN@, trim_spec(query), " "@) {
            None => Err(error_spec(ErrorKind::Internal, bad_pattern_message())),
            Some(q) => if q.len() < MIN_QUERY_LENGTH {
                Err(error_spec(ErrorKind::User,
                    "The search query without trailing and leading spaces must be 2 characters or more"@))
            } else {
                Ok(q)
            },
        }
    }
}

/// A person's name that the person-name pattern accepts is kept exactly as written, dashes
/// and all; one the pattern refuses is the user's mistake.
pub proof fn lemma_person_name_kept(name: Seq<char>)
    ensures
        match_spec(VALID_PERSON_NAME_PATTERN@, name) == Some(true)
            ==> schedule_name_spec(name, ScheduleType::Person) == Ok::<Seq<char>, CommonErrorView>(name),
        match_spec(VALID_PERSON_NAME_PATTERN@, name) == Some(false)
            ==> (schedule_name_spec(name, ScheduleType::Person) matches Err(e) && e.kind == ErrorKind::User),
{
}

/// A query already in normal form is kept as it is: one of an accepted length, with no
/// whitespace at either end, that the whitespace-collapsing replacement leaves unchanged.
pub proof fn lemma_normal_query_kept(q: Seq<char>)
    requires
        MIN_QUERY_LENGTH <= q.len() <= MAX_QUERY_LENGTH,
        trim_spec(q) == q,
        regex_compiles(SPACES_PATTERN@),
        regex_replace_all(SPACES_PATTERN@, q, " "@) == q,
    ensures
        search_query_spec(q) == Ok::<Seq<char>, CommonErrorView>(q),
{
}

/// Inserts `0` after the first dash of `s`.
fn pad_first_dash_exec(s: &str) -> (r: String)
    ensures
        r@ == pad_first_dash(s@),
{
    let v = chars_of(s);
    let n = v.len();
    let mut i: usize = 0;
    while i < n && v[i] != '-'
        invariant
            n == v@.len(),
            i <= n,
            forall|j: int| 0 <= j < i ==> v@[j] != '-',
        decreases n - i,
    {
        i = i + 1;
    }
    if i == n {
        assert(!exists|k: int| 0 <= k < v@.len() && v@[k] == '-');
        return string_from_chars(v.as_slice());
    }
    let mut out: Vec<char> = Vec::new();
    let mut k: usize = 0;
    while k <= i
        invariant
            i < n,
            n == v@.len(),
            k <= i + 1,
            out@ =~= v@.take(k as int),
        decreases i + 1 - k,
    {
        out.push(v[k]);
        k = k + 1;
    }
    out.push('0');
    while k < n
        invariant
            i < n,
            n == v@.len(),
            i + 1 <= k <= n,
            out@ =~= v@.take(i + 1).push('0') + v@.subrange(i + 1, k as int),
        decreases n - k,
    {
        out.push(v[k]);
        k = k + 1;
    }
    proof {
        let w = choose|w: int| 0 <= w < v@.len() && v@[w] == '-' && forall|j: int| 0 <= j < w ==> v@[j] != '-';
        assert(0 <= i < v@.len() && v@[i as int] == '-' && forall|j: int| 0 <= j < i ==> v@[j] != '-');
        assert(w == i) by {
            if w < i {
                assert(v@[w] != '-');
            } else if w > i {
                assert(v@[i as int] != '-');
            }
        }
        assert(v@.subrange(i + 1, n as int) =~= v@.skip(i + 1));
    }
    string_from_chars(out.as_slice())
}

/// Name of a schedule owner that passed validation.
#[derive(Debug)]
pub struct ScheduleName(String);

impl View for ScheduleName {
    type V = Seq<char>;

    closed spec fn view(&self) -> Seq<char> {
        self.0@
    }
}

impl ScheduleName {
    /// Validates a schedule owner's name.
    ///
    /// Group names must contain five to twenty Cyrillic letters, digits or dashes in a row;
    /// they are upper-cased, and a `0` is inserted after the first dash when the number after
    /// it has a single digit. Person names must consist of Cyrillic words. Rooms are not
    /// supported yet.
    pub fn new(name: String, schedule_type: ScheduleType) -> (r: Result<ScheduleName, CommonError>)
        ensures
            r matches Ok(n) ==> schedule_name_spec(name@, schedule_type) == Ok::<Seq<char>, CommonErrorView>(n@),
            r matches Err(e) ==> schedule_name_spec(name@, schedule_type) == Err::<Seq<char>, CommonErrorView>(e@),
    {
        match schedule_type {
            ScheduleType::Group => {
                match test_match(VALID_GROUP_NAME_PATTERN, name.as_str()) {
                    None => Err(CommonError::internal("Invalid name pattern")),
                    Some(false) => Err(CommonError::user("Invalid group name")),
                    Some(true) => {
                        let upper = to_uppercase(name.as_str());
                        match test_match(SHORTENED_GROUP_NAME_PATTERN, upper.as_str()) {
                            None => Err(CommonError::internal("Invalid name pattern")),
                            Some(true) => Ok(ScheduleName(pad_first_dash_exec(upper.as_str()))),
                            Some(false) => Ok(ScheduleName(upper)),
                        }
                    },
                }
            },
            ScheduleType::Person => {
                match test_match(VALID_PERSON_NAME_PATTERN, name.as_str()) {
                    None => Err(CommonError::internal("Invalid name pattern")),
                    Some(false) => Err(CommonError::user("Invalid person name")),
                    Some(true) => Ok(ScheduleName(name)),
                }
            },
            ScheduleType::Room => Err(CommonError::internal("Room name validation is not implemented yet")),
        }
    }

    /// The validated name.
    pub fn as_string(self) -> (r: String)
        ensures
            r@ == self@,
    {
        self.0
    }

    /// The validated name, borrowed.
    pub fn as_str(&self) -> (r: &str)
        ensures
            r@ == self@,
    {
        self.0.as_str()
    }

    /// A copy of the name.
    pub fn duplicate(&self) -> (r: ScheduleName)
        ensures
            r@ == self@,
    {
        ScheduleName(copy_string(self.0.as_str()))
    }
}

/// A search query that passed validation.
#[derive(Debug)]
pub struct ScheduleSearchQuery(String);

impl View for ScheduleSearchQuery {
    type V = Seq<char>;

    closed spec fn view(&self) -> Seq<char> {
        self.0@
    }
}

impl ScheduleSearchQuery {
    /// Validates a search query: it must have 2 to 50 characters, and at least 2 once
    /// leading and trailing whitespace is removed and inner runs of whitespace are collapsed
    /// into one space, which is the form kept.
    pub fn new(query: String) -> (r: Result<ScheduleSearchQuery, CommonError>)
        ensures
            r matches Ok(q) ==> search_query_spec(query@) == Ok::<Seq<char>, CommonErrorView>(q@),
            r matches Err(e) ==> search_query_spec(query@) == Err::<Seq<char>, CommonErrorView>(e@),
    {
        let length = chars_of(query.as_str()).len();
        if length < MIN_QUERY_LENGTH {
            return Err(CommonError::user("The search query must be 2 characters or more"));
        }
        if length > MAX_QUERY_LENGTH {
            return Err(CommonError::user("Too long search query"));
        }
        let trimmed = trim(query.as_str());
        match replace_all(SPACES_PATTERN, trimmed.as_str(), " ") {
            None => Err(CommonError::internal("Invalid name pattern")),
            Some(q) => {
                if chars_of(q.as_str()).len() < MIN_QUERY_LENGTH {
                    Err(CommonError::user(
                        "The search query without trailing and leading spaces must be 2 characters or more",
                    ))
                } else {
                    Ok(ScheduleSearchQuery(q))
                }
            },
        }
    }

    /// The normalized query.
    pub fn as_str(&self) -> (r: &str)
        ensures
            r@ == self@,
    {
        self.0.as_str()
    }

    /// A copy of the query.
    pub fn duplicate(&self) -> (r: ScheduleSearchQuery)
        ensures
            r@ == self@,
    {
        ScheduleSearchQuery(copy_string(self.0.as_str()))
    }
}

} // verus!
