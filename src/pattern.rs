use vstd::prelude::*;

verus! {

#[verifier::external_type_specification]
#[verifier::external_body]
pub struct ExRegex(regex::Regex);

#[verifier::external_type_specification]
#[verifier::external_body]
pub struct ExRegexError(regex::Error);

/// Whether `regex::Regex::new` accepts a pattern: its syntax is valid and the
/// compiled program stays within the default size limit.
pub uninterp spec fn regex_compiles(pattern: Seq<char>) -> bool;

/// Whether the regex compiled from `pattern` finds a match anywhere in `haystack`.
pub uninterp spec fn regex_finds(pattern: Seq<char>, haystack: Seq<char>) -> bool;

/// Relies on `regex::Regex::new`: it returns `Ok` exactly on the patterns it
/// accepts, and an error otherwise.
#[verifier::external_body]
fn compile_regex(pattern: &str) -> (r: Result<regex::Regex, regex::Error>)
    ensures
        r is Ok <==> regex_compiles(pattern@),
{
    regex::Regex::new(pattern)
}

/// Relies on `regex::Regex::is_match`: whether the regex matches somewhere in
/// `line`. The regex of a `Matcher` is always the one that `Matcher::new`
/// compiled from its source, the only way one is made.
#[verifier::external_body]
fn regex_is_match(m: &Matcher, line: &str) -> (r: bool)
    ensures
        r == regex_finds(m@, line@),
{
    m.regex.is_match(line)
}

/// A compiled search pattern together with the text it was compiled from.
pub struct Matcher {
    source: String,
    regex: regex::Regex,
}

/// A pattern that the regex engine refused, with the engine's reason.
pub struct PatternError {
    pub pattern: String,
    pub error: regex::Error,
}

impl View for Matcher {
    type V = Seq<char>;

    closed spec fn view(&self) -> Seq<char> {
        self.source@
    }
}

impl Matcher {
    /// Compiles `pattern`; fails exactly when the regex engine refuses it.
    pub fn new(pattern: &str) -> (r: Result<Matcher, PatternError>)
        ensures
            r is Ok <==> regex_compiles(pattern@),
            r matches Ok(m) ==> m@ == pattern@,
            r matches Err(e) ==> e.pattern@ == pattern@,
    {
        match compile_regex(pattern) {
            Ok(regex) => Ok(Matcher { source: String::from_str(pattern), regex }),
            Err(error) => Err(PatternError { pattern: String::from_str(pattern), error }),
        }
    }

    /// The pattern's text.
    pub fn source(&self) -> (r: &str)
        ensures
            r@ == self@,
    {
        self.source.as_str()
    }

    /// Whether the pattern matches somewhere in `line`.
    pub fn is_match(&self, line: &str) -> (r: bool)
        ensures
            r == regex_finds(self@, line@),
    {
        regex_is_match(self, line)
    }
}

} // verus!
