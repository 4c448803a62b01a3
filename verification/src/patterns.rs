//! Compiled regular expressions, paired with the pattern they were compiled from.
use vstd::prelude::*;

verus! {

#[verifier::external_type_specification]
#[verifier::external_body]
pub struct ExRegex(regex::Regex);

/// Whether `regex::Regex::new` accepts `pattern`.
pub uninterp spec fn regex_compiles(pattern: Seq<char>) -> bool;

/// What `regex::Regex::is_match` answers for the regex compiled from
/// `pattern` on `haystack`: whether the regex matches anywhere in it.
pub uninterp spec fn regex_is_match(pattern: Seq<char>, haystack: Seq<char>) -> bool;

/// The pattern that matches where any of `alts` matches: the alternatives
/// joined by `|`.
pub open spec fn alternation(alts: Seq<Seq<char>>) -> Seq<char>
    decreases alts.len(),
{
    if alts.len() == 0 {
        Seq::empty()
    } else if alts.len() == 1 {
        alts[0]
    } else {
        alternation(alts.drop_last()) + "|"@ + alts.last()
    }
}

/// A regex together with the pattern it was compiled from. Only
/// `CompiledRegex::compile` builds one, so the two always agree.
pub struct CompiledRegex {
    source: String,
    inner: regex::Regex,
}

impl View for CompiledRegex {
    type V = Seq<char>;

    /// A compiled regex is seen as its pattern.
    closed spec fn view(&self) -> Seq<char> {
        self.source@
    }
}

impl CompiledRegex {
    /// Calls `regex::Regex::new(pattern)`; its contract claims only that the
    /// result is present exactly when the pattern compiles, and that it keeps
    /// the pattern it came from. Why a pattern is refused is not stated.
    #[verifier::external_body]
    pub(crate) fn compile(pattern: &str) -> (r: Option<CompiledRegex>)
        ensures
            r is Some <==> regex_compiles(pattern@),
            r matches Some(re) ==> re@ == pattern@,
    {
        match regex::Regex::new(pattern) {
            Ok(inner) => Some(CompiledRegex { source: pattern.to_owned(), inner }),
            Err(_) => None,
        }
    }

    /// Calls `regex::Regex::is_match(haystack)`; its contract claims that the
    /// answer is the named result `regex_is_match` of the pattern and the
    /// haystack. Which texts a pattern matches is not stated.
    #[verifier::external_body]
    pub(crate) fn is_match(&self, haystack: &str) -> (b: bool)
        ensures
            b == regex_is_match(self@, haystack@),
    {
        self.inner.is_match(haystack)
    }

    /// The pattern this regex was compiled from, as `regex::Regex::as_str`
    /// would give it.
    pub fn as_string(&self) -> (s: String)
        ensures
            s@ == self@,
    {
        self.source.clone()
    }
}

} // verus!
