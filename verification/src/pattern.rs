//! The pattern that narrows a traversal: a compiled regular expression.

use vstd::prelude::*;
use regex::Regex;
use crate::error::ConfigError;

verus! {

/// `regex::Regex`, a compiled regular expression. Nothing inside it is
/// looked at.
#[verifier::external_type_specification]
#[verifier::external_body]
pub struct ExRegex(regex::Regex);

/// `regex::Error`, the reason for which a pattern did not compile. Nothing
/// inside it is looked at.
#[verifier::external_type_specification]
#[verifier::external_body]
pub struct ExRegexError(regex::Error);

/// The answer of `Regex::is_match`: whether `regex` finds a match anywhere
/// in `text`.
pub uninterp spec fn regex_accepts(regex: Regex, text: Seq<char>) -> bool;

/// The answer of `Regex::as_str`: the pattern that `regex` was compiled
/// from.
pub uninterp spec fn regex_source(regex: Regex) -> Seq<char>;

/// Whether `Regex::new` compiles `pattern`: whether it is a regular
/// expression whose program stays within the size that the crate allows.
pub uninterp spec fn regex_compiles(pattern: Seq<char>) -> bool;

/// What `Regex::is_match` answers for the expression that `Regex::new`
/// compiles `pattern` to: whether it finds a match anywhere in `text`.
pub uninterp spec fn pattern_accepts(pattern: Seq<char>, text: Seq<char>) -> bool;

/// Whether `regex` is what `Regex::new` makes of `pattern`: it keeps the
/// pattern as its source, and accepts what the pattern accepts.
pub open spec fn compiled_from(regex: Regex, pattern: Seq<char>) -> bool {
    &&& regex_source(regex) == pattern
    &&& forall|text: Seq<char>| #[trigger]
        regex_accepts(regex, text) == pattern_accepts(pattern, text)
}

/// `Regex::new` compiles a pattern. Whether it succeeds depends on the
/// pattern alone, and is named. An expression that it returns keeps the
/// pattern given, letter for letter, as its source, and what it accepts
/// depends on the pattern alone.
pub assume_specification[ Regex::new ](re: &str) -> (compiled: Result<Regex, regex::Error>)
    ensures
        compiled is Ok <==> regex_compiles(re@),
        compiled matches Ok(regex) ==> regex_source(regex) == re@,
        compiled matches Ok(regex) ==> (forall|text: Seq<char>| #[trigger]
            regex_accepts(regex, text) == pattern_accepts(re@, text)),
;

/// `Regex::as_str` returns the string that the expression was compiled
/// from. It is named, and `Regex::new` says what it is.
pub assume_specification<'a>[ Regex::as_str ](regex: &'a Regex) -> (source: &'a str)
    ensures
        source@ == regex_source(*regex),
;

/// `Regex::is_match` searches the haystack from its start and tells whether
/// the expression matches anywhere in it. The answer depends on the
/// expression and the haystack alone, and is named, not described.
pub assume_specification[ Regex::is_match ](regex: &Regex, haystack: &str) -> (found: bool)
    ensures
        found == regex_accepts(*regex, haystack@),
;

/// Whether two runs are narrowed alike: neither by a matcher, or both by
/// the same expression, or both by matchers made from one pattern.
pub open spec fn same_test(first: Option<&PatternMatcher>, second: Option<&PatternMatcher>) -> bool {
    match (first, second) {
        (None, None) => true,
        (Some(a), Some(b)) => a.regex == b.regex || exists|pattern: Seq<char>| #[trigger]
            a.made_from(pattern) && b.made_from(pattern),
        _ => false,
    }
}

/// Matchers made from one pattern accept the same names.
pub proof fn lemma_same_pattern_same_names(
    first: &PatternMatcher,
    second: &PatternMatcher,
    pattern: Seq<char>,
)
    requires
        first.made_from(pattern),
        second.made_from(pattern),
    ensures
        first.predicate() == second.predicate(),
{
    assert forall|name: Seq<char>| first.accepts(name) == second.accepts(name) by {
        assert(regex_accepts(first.regex, name) == pattern_accepts(pattern, name));
        assert(regex_accepts(second.regex, name) == pattern_accepts(pattern, name));
    }
    assert(first.predicate() =~= second.predicate());
}

/// A test on entry names, made once from the pattern given.
#[derive(Debug)]
pub struct PatternMatcher {
    pub regex: Regex,
}

impl PatternMatcher {
    /// Whether the pattern accepts `name`.
    pub open spec fn accepts(&self, name: Seq<char>) -> bool {
        regex_accepts(self.regex, name)
    }

    /// The pattern that the matcher was compiled from.
    pub open spec fn source(&self) -> Seq<char> {
        regex_source(self.regex)
    }

    /// Whether the matcher is the one that `pattern` compiles to.
    pub open spec fn made_from(&self, pattern: Seq<char>) -> bool {
        compiled_from(self.regex, pattern)
    }

    /// The test as a predicate on names.
    pub open spec fn predicate(&self) -> spec_fn(Seq<char>) -> bool {
        |name: Seq<char>| self.accepts(name)
    }

    /// The matcher for an expression that compiled, and the error for one
    /// that did not.
    pub fn from_compiled(compiled: Result<Regex, regex::Error>) -> (result: Result<
        PatternMatcher,
        ConfigError,
    >)
        ensures
            match compiled {
                Ok(regex) => result matches Ok(matcher) && matcher.regex == regex,
                Err(error) => result matches Err(ConfigError::InvalidPattern(e)) && e == error,
            },
    {
        match compiled {
            Ok(regex) => Ok(PatternMatcher { regex }),
            Err(error) => Err(ConfigError::InvalidPattern(error)),
        }
    }

    /// Compiles `pattern`. A pattern that compiles gives its matcher; one
    /// that does not is the only failure.
    pub fn new(pattern: &str) -> (result: Result<PatternMatcher, ConfigError>)
        ensures
            result is Ok <==> regex_compiles(pattern@),
            result matches Ok(matcher) ==> matcher.made_from(pattern@),
            result is Err ==> result matches Err(ConfigError::InvalidPattern(_)),
    {
        Self::from_compiled(Regex::new(pattern))
    }

    /// The pattern that the matcher was compiled from.
    pub fn pattern(&self) -> (text: &str)
        ensures
            text@ == self.source(),
    {
        self.regex.as_str()
    }

    /// Tests a name against the pattern.
    pub fn matches(&self, name: &str) -> (accepted: bool)
        ensures
            accepted == self.accepts(name@),
    {
        self.regex.is_match(name)
    }
}

} // verus!
