//! Tests of the filename transform engine.

use qbit_rename::error::Error;
use qbit_rename::transform::transform;

fn expect_ok(filename: &str, rule: &str) -> String {
    match transform(filename, rule) {
        Ok(name) => name,
        Err(e) => panic!("expected success, got error: {}", e.message()),
    }
}

#[test]
fn rule_without_at_sign_is_invalid_tag() {
    let r = transform("Show.S01E05.mkv", "foo");
    assert!(matches!(r, Err(Error::InvalidTag(t)) if t == "foo"));
}

#[test]
fn rule_with_at_sign_passes_tag_check() {
    // "foo@1" splits fine, compiles and parses; it merely matches nothing here.
    let r = transform("Show.S01E05.mkv", "foo@1");
    assert!(matches!(r, Err(Error::NoMatch(f, p)) if f == "Show.S01E05.mkv" && p == "foo"));
}

#[test]
fn rule_splits_on_last_at_sign() {
    // "a@b@3" must split into pattern "a@b" and offset "3": the pattern
    // matches (no capture group), so the offset text "3" parsed fine and the
    // reported pattern is everything before the last '@'.
    let r = transform("xxa@bxx", "a@b@3");
    assert!(matches!(r, Err(Error::NoGroup(p)) if p == "a@b"));
}

#[test]
fn last_at_split_pattern_in_no_match_error() {
    let r = transform("zzz", "a@b@3");
    assert!(matches!(r, Err(Error::NoMatch(f, p)) if f == "zzz" && p == "a@b"));
}

#[test]
fn unterminated_group_is_invalid_regex() {
    let r = transform("Show.S01E05.mkv", "(@1");
    assert!(matches!(r, Err(Error::InvalidRegex(p)) if p == "("));
}

#[test]
fn non_integer_offset_is_invalid_offset() {
    let r = transform("Show.S01E05.mkv", "E(\\d+)@x");
    assert!(matches!(r, Err(Error::InvalidOffset(o)) if o == "x"));
}

#[test]
fn offset_with_plus_sign_is_invalid_offset() {
    let r = transform("Show.S01E05.mkv", "E(\\d+)@+3");
    assert!(matches!(r, Err(Error::InvalidOffset(o)) if o == "+3"));
}

#[test]
fn offset_out_of_range_is_invalid_offset() {
    let r = transform("Show.S01E05.mkv", "E(\\d+)@99999999999");
    assert!(matches!(r, Err(Error::InvalidOffset(o)) if o == "99999999999"));
}

#[test]
fn positive_offset_shifts_episode_number() {
    // Match "E05", group 1 "05" -> 5, shifted to 8, "05" replaced by "8"
    // inside "E05" gives "E8".
    assert_eq!(expect_ok("Show.S01E05.mkv", "E(\\d+)@3"), "Show.S01E8.mkv");
}

#[test]
fn no_match_reports_filename_and_pattern() {
    let r = transform("Show.S01E05.mkv", "XYZ@1");
    match r {
        Err(e @ Error::NoMatch(_, _)) => {
            let m = e.message();
            assert!(m.contains("Show.S01E05.mkv"));
            assert!(m.contains("XYZ"));
        },
        _ => panic!("expected a no-match error"),
    }
}

#[test]
fn pattern_without_group_is_no_group() {
    let r = transform("Show.S01E05.mkv", "E\\d+@1");
    assert!(matches!(r, Err(Error::NoGroup(p)) if p == "E\\d+"));
}

#[test]
fn group_text_that_is_not_a_number() {
    let r = transform("Show.S01E05.mkv", "(m)kv@1");
    assert!(matches!(r, Err(Error::GroupNotANumber(g)) if g == "m"));
}

#[test]
fn negative_offset_shifts_down() {
    // Group value 5, offset -2, yields 3.
    assert_eq!(expect_ok("Show.S01E05.mkv", "E(\\d+)@-2"), "Show.S01E3.mkv");
}

#[test]
fn shifted_number_out_of_range_is_overflow() {
    let r = transform("Show.E2147483647.mkv", "E(\\d+)@1");
    assert!(matches!(r, Err(Error::NumberOverflow(v, o)) if v == 2147483647 && o == 1));
}

#[test]
fn reapplying_a_positive_offset_rule_shifts_twice() {
    // The transform is deliberately not idempotent: applying the same
    // positive-offset rule again shifts the number again.
    let once = expect_ok("Show.S01E05.mkv", "E(\\d+)@3");
    assert_eq!(once, "Show.S01E8.mkv");
    let twice = expect_ok(&once, "E(\\d+)@3");
    assert_eq!(twice, "Show.S01E11.mkv");
    assert_ne!(once, twice);
}

#[test]
fn only_first_match_is_rewritten() {
    assert_eq!(expect_ok("E01.E01", "E(\\d+)@1"), "E2.E01");
}

#[test]
fn every_occurrence_of_group_text_inside_match_is_replaced() {
    // The whole matched text is rewritten by replacing each occurrence of the
    // captured text inside it.
    assert_eq!(expect_ok("a7b7c", "a(7)b7@1"), "a8b8c");
}

#[test]
fn zero_padded_group_is_replaced_inside_match_only() {
    // The "01" outside the matched text is untouched.
    assert_eq!(expect_ok("S01E05.mkv", "E(\\d+)@10"), "S01E15.mkv");
}

#[test]
fn rule_of_a_single_at_sign_has_empty_offset() {
    let r = transform("abc", "@");
    assert!(matches!(r, Err(Error::InvalidOffset(o)) if o.is_empty()));
}

#[test]
fn empty_offset_text_is_invalid_offset() {
    let r = transform("abc", "E(\\d+)@");
    assert!(matches!(r, Err(Error::InvalidOffset(o)) if o.is_empty()));
}

#[test]
fn bare_minus_is_invalid_offset() {
    let r = transform("Show.S01E05.mkv", "E(\\d+)@-");
    assert!(matches!(r, Err(Error::InvalidOffset(o)) if o == "-"));
}

#[test]
fn empty_pattern_matches_but_has_no_group() {
    let r = transform("abc", "@3");
    assert!(matches!(r, Err(Error::NoGroup(p)) if p.is_empty()));
}
