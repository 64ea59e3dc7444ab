//! Regular expressions, evaluated by the `regex` crate.
use vstd::prelude::*;

verus! {

#[verifier::external_type_specification]
#[verifier::external_body]
pub struct ExRegex(regex::Regex);

/// Whether `regex::Regex::new` accepts the pattern.
pub uninterp spec fn regex_compiles(pattern: Seq<char>) -> bool;

/// What `regex::Regex::is_match` answers for a pattern and a haystack.
pub uninterp spec fn regex_is_match(pattern: Seq<char>, haystack: Seq<char>) -> bool;

/// What `regex::Regex::replace_all` gives for a pattern, a haystack and a literal replacement.
pub uninterp spec fn regex_replace_all(pattern: Seq<char>, haystack: Seq<char>, replacement: Seq<char>) -> Seq<char>;

/// A compiled regular expression together with the pattern it was compiled from.
pub struct Pattern {
    regex: regex::Regex,
    source: Ghost<Seq<char>>,
}

impl Pattern {
    /// The pattern this expression was compiled from.
    pub closed spec fn pattern(&self) -> Seq<char> {
        self.source@
    }

    /// Calls `regex::Regex::new`; `Some` exactly when the pattern compiles.
    #[verifier::external_body]
    pub fn compile(source: &str) -> (r: Option<Pattern>)
        ensures
            r is Some <==> regex_compiles(source@),
            r matches Some(p) ==> p.pattern() == source@,
    {
        match regex::Regex::new(source) {
            Ok(regex) => Some(Pattern { regex, source: Ghost(source@) }),
            Err(_) => None,
        }
    }

    /// Calls `regex::Regex::is_match`: whether the pattern matches somewhere in `haystack`.
    #[verifier::external_body]
    pub fn is_match(&self, haystack: &str) -> (r: bool)
        ensures
            r == regex_is_match(self.pattern(), haystack@),
    {
        self.regex.is_match(haystack)
    }

    /// Calls `regex::Regex::replace_all` with a replacement free of `$` references.
    /// The crate documents that a haystack without a match comes back unchanged.
    #[verifier::external_body]
    pub fn replace_all(&self, haystack: &str, replacement: &str) -> (r: String)
        ensures
            r@ == regex_replace_all(self.pattern(), haystack@, replacement@),
            !regex_is_match(self.pattern(), haystack@) ==> r@ == haystack@,
    {
        self.regex.replace_all(haystack, regex::NoExpand(replacement)).into_owned()
    }
}

/// Whether `pattern` matches somewhere in `haystack`; `None` when the pattern does not compile.
pub open spec fn match_spec(pattern: Seq<char>, haystack: Seq<char>) -> Option<bool> {
    if regex_compiles(pattern) { Some(regex_is_match(pattern, haystack)) } else { None }
}

/// `haystack` with every match of `pattern` replaced; `None` when the pattern does not compile.
pub open spec fn replace_spec(pattern: Seq<char>, haystack: Seq<char>, replacement: Seq<char>) -> Option<Seq<char>> {
    if regex_compiles(pattern) { Some(regex_replace_all(pattern, haystack, replacement)) } else { None }
}

/// Compiles `pattern` and tests it against `haystack`.
pub fn test_match(pattern: &str, haystack: &str) -> (r: Option<bool>)
    ensures
        r == match_spec(pattern@, haystack@),
{
    match Pattern::compile(pattern) {
        Some(p) => Some(p.is_match(haystack)),
        None => None,
    }
}

/// Compiles `pattern` and replaces all its matches in `haystack` by `replacement`.
pub fn replace_all(pattern: &str, haystack: &str, replacement: &str) -> (r: Option<String>)
    ensures
        r matches Some(s) ==> replace_spec(pattern@, haystack@, replacement@) == Some(s@),
        r is None <==> replace_spec(pattern@, haystack@, replacement@) is None,
        regex_compiles(pattern@) && !regex_is_match(pattern@, haystack@) ==> (r matches Some(s) && s@ == haystack@),
{
    match Pattern::compile(pattern) {
        Some(p) => Some(p.replace_all(haystack, replacement)),
        None => None,
    }
}

} // verus!
