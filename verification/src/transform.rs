//! The filename transform engine: a pure function from a filename and a rule
//! of the form `pattern@offset` to a new filename or a classified failure.

use vstd::prelude::*;
use crate::error::Error;
use crate::numbers::fits_i32;
use crate::numbers::int_chars;
use crate::numbers::int_value;
use crate::numbers::parse_i32;
use crate::numbers::i64_to_chars;
use crate::pattern::CompiledPattern;
use crate::pattern::regex_compiles;
use crate::pattern::regex_search;
use crate::text::chars_of;
use crate::text::last_index_of;
use crate::text::lemma_last_index;
use crate::text::push_all;
use crate::text::replace_all;
use crate::text::spec_last_index;
use crate::text::spec_replace_all;
use crate::text::string_of;
use crate::text::copy_range;

verus! {

/// The rule text before the last '@'.
pub open spec fn spec_rule_pattern(rule: Seq<char>) -> Seq<char>
    recommends
        spec_last_index(rule, '@') is Some,
{
    rule.take(spec_last_index(rule, '@')->0)
}

/// The rule text after the last '@'.
pub open spec fn spec_rule_offset_text(rule: Seq<char>) -> Seq<char>
    recommends
        spec_last_index(rule, '@') is Some,
{
    rule.skip(spec_last_index(rule, '@')->0 + 1)
}

/// The rule splits at its last '@': the pattern is everything before it, the
/// offset text everything after it, and no '@' stands after the split point.
pub proof fn lemma_rule_split(rule: Seq<char>)
    requires
        spec_last_index(rule, '@') is Some,
    ensures
        ({
            let k = spec_last_index(rule, '@')->0;
            &&& 0 <= k < rule.len()
            &&& rule[k] == '@'
            &&& spec_rule_pattern(rule) == rule.take(k)
            &&& spec_rule_offset_text(rule) == rule.skip(k + 1)
            &&& forall|j: int| k < j < rule.len() ==> rule[j] != '@'
        }),
{
    lemma_last_index(rule, '@');
}

/// What the transform yields, stated over character sequences. Each failure
/// carries the context the matching error reports.
pub enum SpecOutcome {
    /// The new filename.
    Renamed(Seq<char>),
    /// The rule holds no '@'.
    NoAtSign,
    /// The rule's pattern does not compile; carries the pattern.
    BadPattern(Seq<char>),
    /// The rule's offset is not an integer that fits; carries its text.
    BadOffset(Seq<char>),
    /// The pattern matches nowhere in the filename.
    NoMatch,
    /// The match has no capture group 1; carries the pattern.
    NoGroup(Seq<char>),
    /// Group 1's text is not an integer that fits; carries it.
    NotANumber(Seq<char>),
    /// The shifted number leaves the range; carries number and offset.
    Overflow(int, int),
}

/// The whole transform: split the rule on its last '@', compile the pattern,
/// parse the offset, search the filename, shift the number captured by group 1
/// by the offset, and rewrite the matched text by replacing every occurrence
/// of the captured text with the shifted number's decimal form.
pub open spec fn spec_transform(filename: Seq<char>, rule: Seq<char>) -> SpecOutcome {
    if spec_last_index(rule, '@') is None {
        SpecOutcome::NoAtSign
    } else {
        let pat = spec_rule_pattern(rule);
        let off_text = spec_rule_offset_text(rule);
        if !regex_compiles(pat) {
            SpecOutcome::BadPattern(pat)
        } else if !fits_i32(off_text) {
            SpecOutcome::BadOffset(off_text)
        } else {
            match regex_search(pat, filename) {
                None => SpecOutcome::NoMatch,
                Some(m) => match m.3 {
                    None => SpecOutcome::NoGroup(pat),
                    Some(g) => if !fits_i32(g) {
                        SpecOutcome::NotANumber(g)
                    } else {
                        let sum = int_value(g) + int_value(off_text);
                        if !(i32::MIN <= sum <= i32::MAX) {
                            SpecOutcome::Overflow(int_value(g), int_value(off_text))
                        } else {
                            SpecOutcome::Renamed(
                                m.0 + spec_replace_all(m.1, g, int_chars(sum)) + m.2,
                            )
                        }
                    },
                },
            }
        }
    }
}

/// The tag check: the transform fails with the invalid-tag outcome exactly
/// when the rule holds no '@' at all, whatever the filename.
pub proof fn lemma_tag_check(filename: Seq<char>, rule: Seq<char>)
    ensures
        (spec_transform(filename, rule) is NoAtSign) <==> (forall|i: int|
            0 <= i < rule.len() ==> rule[i] != '@'),
{
    lemma_last_index(rule, '@');
}

/// How an executable result corresponds to the specified outcome: success
/// returns exactly the new filename, and each failure returns its error with
/// the context the outcome names.
pub open spec fn transform_returns(filename: Seq<char>, rule: Seq<char>, r: Result<
    String,
    Error,
>) -> bool {
    match spec_transform(filename, rule) {
        SpecOutcome::Renamed(s) => r matches Ok(name) && name@ == s,
        SpecOutcome::NoAtSign => r matches Err(Error::InvalidTag(t)) && t@ == rule,
        SpecOutcome::BadPattern(p) => r matches Err(Error::InvalidRegex(t)) && t@ == p,
        SpecOutcome::BadOffset(o) => r matches Err(Error::InvalidOffset(t)) && t@ == o,
        SpecOutcome::NoMatch => r matches Err(Error::NoMatch(f, p)) && f@ == filename && p@
            == spec_rule_pattern(rule),
        SpecOutcome::NoGroup(p) => r matches Err(Error::NoGroup(t)) && t@ == p,
        SpecOutcome::NotANumber(g) => r matches Err(Error::GroupNotANumber(t)) && t@ == g,
        SpecOutcome::Overflow(v, o) => r matches Err(Error::NumberOverflow(vv, oo)) && vv as int
            == v && oo as int == o,
    }
}

/// Apply the rename rule to the filename.
pub fn transform(filename: &str, rule: &str) -> (r: Result<String, Error>)
    ensures
        transform_returns(filename@, rule@, r),
{
    let rule_chars = chars_of(rule);
    let name_chars = chars_of(filename);
    let k = match last_index_of(rule_chars.as_slice(), '@') {
        None => {
            return Err(Error::InvalidTag(rule.to_owned()));
        },
        Some(k) => k,
    };
    proof {
        lemma_last_index(rule@, '@');
        assert(rule@.subrange(0, k as int) =~= spec_rule_pattern(rule@));
        assert(rule@.subrange(k as int + 1, rule@.len() as int) =~= spec_rule_offset_text(rule@));
    }
    let pat = copy_range(rule_chars.as_slice(), 0, k);
    let off_text = copy_range(rule_chars.as_slice(), k + 1, rule_chars.len());
    let compiled = match CompiledPattern::compile(pat.as_slice()) {
        None => {
            return Err(Error::InvalidRegex(string_of(pat.as_slice())));
        },
        Some(c) => c,
    };
    let offset = match parse_i32(off_text.as_slice()) {
        None => {
            return Err(Error::InvalidOffset(string_of(off_text.as_slice())));
        },
        Some(o) => o,
    };
    let found = match compiled.find(name_chars.as_slice()) {
        None => {
            return Err(Error::NoMatch(filename.to_owned(), string_of(pat.as_slice())));
        },
        Some(f) => f,
    };
    let group = match found.group1 {
        None => {
            return Err(Error::NoGroup(string_of(pat.as_slice())));
        },
        Some(g) => g,
    };
    let value = match parse_i32(group.as_slice()) {
        None => {
            return Err(Error::GroupNotANumber(string_of(group.as_slice())));
        },
        Some(v) => v,
    };
    let sum: i64 = value as i64 + offset as i64;
    if sum < i32::MIN as i64 || sum > i32::MAX as i64 {
        return Err(Error::NumberOverflow(value, offset));
    }
    let digits = i64_to_chars(sum);
    let rewritten = replace_all(found.matched.as_slice(), group.as_slice(), digits.as_slice());
    let mut out = found.before;
    push_all(&mut out, rewritten.as_slice());
    push_all(&mut out, found.after.as_slice());
    Ok(string_of(out.as_slice()))
}

} // verus!

