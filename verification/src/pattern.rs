//! Regular-expression matching, through the regex crate.
//!
//! The regex engine itself is trusted: what a pattern matches is named by the
//! uninterpreted functions below, and the wrappers state how the crate's calls
//! relate to those names. Everything downstream of a match is verified against
//! them.

use vstd::prelude::*;

verus! {

#[verifier::external_type_specification]
#[verifier::external_body]
pub struct ExRegex(regex::Regex);

/// Whether the regex crate accepts `pattern` as a valid regular expression.
pub uninterp spec fn regex_compiles(pattern: Seq<char>) -> bool;

/// The leftmost match the regex crate finds for `pattern` in `text`, if any:
/// the text before the match, the matched text itself, the text after it, and
/// the text captured by group 1 when that group participates in the match.
pub uninterp spec fn regex_search(pattern: Seq<char>, text: Seq<char>) -> Option<
    (Seq<char>, Seq<char>, Seq<char>, Option<Seq<char>>),
>;

/// A pattern together with the regex compiled from it. The two fields are
/// private and coupled by the one constructor, `compile`, so `find` may state
/// its result in terms of the pattern text.
pub(crate) struct CompiledPattern {
    regex: regex::Regex,
    pattern: Vec<char>,
}

/// The pieces of a successful search: the text before the match, the matched
/// text, the text after it, and what group 1 captured, if anything.
pub(crate) struct Found {
    pub(crate) before: Vec<char>,
    pub(crate) matched: Vec<char>,
    pub(crate) after: Vec<char>,
    pub(crate) group1: Option<Vec<char>>,
}

impl CompiledPattern {
    /// The pattern this value was compiled from.
    pub(crate) closed spec fn pattern(&self) -> Seq<char> {
        self.pattern@
    }

    /// Relies on regex::Regex::new: compilation succeeds exactly for the
    /// pattern texts the crate accepts as regular expressions.
    #[verifier::external_body]
    pub(crate) fn compile(pattern: &[char]) -> (r: Option<CompiledPattern>)
        ensures
            r is Some <==> regex_compiles(pattern@),
            r is Some ==> r->0.pattern() == pattern@,
    {
        let text: String = pattern.iter().collect();
        match regex::Regex::new(&text) {
            Ok(regex) => Some(CompiledPattern { regex, pattern: pattern.to_vec() }),
            Err(_) => None,
        }
    }

    /// Relies on regex::Regex::captures: it returns the leftmost match, whose
    /// group 0 is the matched span inside the haystack, together with what
    /// group 1 captured. The match's span lies within the haystack, so the
    /// three pieces concatenate back to it.
    #[verifier::external_body]
    pub(crate) fn find(&self, text: &[char]) -> (r: Option<Found>)
        ensures
            r is Some <==> regex_search(self.pattern(), text@) is Some,
            r is Some ==> {
                let m = regex_search(self.pattern(), text@)->0;
                &&& r->0.before@ == m.0
                &&& r->0.matched@ == m.1
                &&& r->0.after@ == m.2
                &&& (r->0.group1 is Some <==> m.3 is Some)
                &&& (r->0.group1 is Some ==> r->0.group1->0@ == m.3->0)
                &&& m.0 + m.1 + m.2 == text@
            },
    {
        let hay: String = text.iter().collect();
        let caps = self.regex.captures(&hay)?;
        let m = caps.get(0).unwrap();
        Some(Found {
            before: hay[..m.start()].chars().collect(),
            matched: hay[m.start()..m.end()].chars().collect(),
            after: hay[m.end()..].chars().collect(),
            group1: caps.get(1).map(|g| g.as_str().chars().collect()),
        })
    }
}

} // verus!
