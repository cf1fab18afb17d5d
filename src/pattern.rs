//! File-path matchers compiled from script-style regular expressions.

use vstd::prelude::*;
use vstd::string::{StrSliceExecFns, StringExecFns};

verus! {

/// Declares `regex::Regex`, held opaquely inside a `Matcher`.
#[verifier::external_type_specification]
#[verifier::external_body]
pub struct ExRegex(regex::Regex);

/// Declares `regex::Error`, the error of `regex::Regex::new`.
#[verifier::external_type_specification]
#[verifier::external_body]
pub struct ExRegexError(regex::Error);

/// Whether `regex::Regex::new` accepts `pattern`: it is valid syntax and the
/// compiled program stays within the default size limit.
pub uninterp spec fn regex_compiles(pattern: Seq<char>) -> bool;

/// Whether the regex compiled from `pattern` matches anywhere in `text`.
pub uninterp spec fn regex_is_match(pattern: Seq<char>, text: Seq<char>) -> bool;

/// A compiled regular expression together with the source it was compiled
/// from. Only `compile_source` builds one, so the two always agree.
pub struct Matcher {
    source: String,
    regex: regex::Regex,
}

impl View for Matcher {
    type V = Seq<char>;

    /// The source the matcher was compiled from.
    closed spec fn view(&self) -> Seq<char> {
        self.source@
    }
}

/// Relies on `regex::Regex::new`: it succeeds exactly on the patterns that
/// `regex_compiles` names, which depends on the pattern alone.
#[verifier::external_body]
fn compile_source(pattern: &str) -> (r: Result<Matcher, regex::Error>)
    ensures
        r is Ok <==> regex_compiles(pattern@),
        r is Ok ==> r->Ok_0@ == pattern@,
{
    match regex::Regex::new(pattern) {
        Ok(regex) => Ok(Matcher { source: pattern.to_string(), regex }),
        Err(e) => Err(e),
    }
}

/// Relies on `regex::Regex::is_match`: whether the regex matches anywhere in
/// the haystack.
#[verifier::external_body]
pub(crate) fn matcher_is_match(m: &Matcher, text: &str) -> (r: bool)
    ensures
        r == regex_is_match(m@, text@),
{
    m.regex.is_match(text)
}

/// A pattern that could not be compiled, with the flags it was given.
#[derive(Debug, Clone)]
pub struct PatternError {
    /// The pattern as written in the configuration.
    pub pattern: String,
    /// The flags it was given.
    pub flags: String,
}

/// The case-insensitive form of a pattern.
pub open spec fn case_insensitive(pattern: Seq<char>) -> Seq<char> {
    seq!['(', '?', 'i', ')'] + pattern
}

/// The regex source for a script pattern and its flags: only the `i` flag
/// is recognised, and it makes the match case-insensitive.
pub open spec fn regex_source(pattern: Seq<char>, flags: Seq<char>) -> Seq<char> {
    if flags.contains('i') {
        case_insensitive(pattern)
    } else {
        pattern
    }
}

/// Whether `s` holds the character `c`.
pub fn str_has_char(s: &str, c: char) -> (r: bool)
    ensures
        r == s@.contains(c),
{
    let n = s.unicode_len();
    let mut i: usize = 0;
    while i < n
        invariant
            n == s@.len(),
            i <= n,
            forall|j: int| 0 <= j < i ==> s@[j] != c,
        decreases n - i,
    {
        if s.get_char(i) == c {
            return true;
        }
        i = i + 1;
    }
    false
}

/// Compiles a script-style pattern with its flags into a matcher.
pub fn compile_js_regex(pattern: &str, flags: &str) -> (r: Result<Matcher, PatternError>)
    ensures
        r is Ok <==> regex_compiles(regex_source(pattern@, flags@)),
        r is Ok ==> r->Ok_0@ == regex_source(pattern@, flags@),
        r is Err ==> r->Err_0.pattern@ == pattern@ && r->Err_0.flags@ == flags@,
{
    let source = if str_has_char(flags, 'i') {
        let prefix = "(?i)";
        proof {
            reveal_strlit("(?i)");
            assert(prefix@ =~= seq!['(', '?', 'i', ')']);
        }
        String::from_str(prefix).concat(pattern)
    } else {
        String::from_str(pattern)
    };
    match compile_source(source.as_str()) {
        Ok(m) => Ok(m),
        Err(_) => Err(PatternError { pattern: String::from_str(pattern), flags: String::from_str(flags) }),
    }
}

} // verus!
