// Tests of the engine's single-step interface and the condition matcher.

use line_regex::Cond;
use line_regex::MatchError;
use line_regex::match_next;
use line_regex::match_pattern;

fn cv(s: &str) -> Vec<char> {
    s.chars().collect()
}

const FUEL: u64 = 10_000;

#[test]
fn digit_condition() {
    assert!(match_next('5', &vec![Cond::Digit]));
    assert!(!match_next('a', &vec![Cond::Digit]));
}

#[test]
fn wildcard_condition() {
    assert!(match_next('!', &vec![Cond::Wildcard]));
}

#[test]
fn literal_condition() {
    assert!(match_next('q', &vec![Cond::Literal('q')]));
    assert!(!match_next('q', &vec![Cond::Literal('r')]));
}

#[test]
fn any_of_several_conditions() {
    let conds = vec![Cond::Literal('x'), Cond::Digit];
    assert!(match_next('7', &conds));
    assert!(match_next('x', &conds));
    assert!(!match_next('y', &conds));
}

#[test]
fn empty_condition_set_accepts_nothing() {
    assert!(!match_next('a', &Vec::new()));
}

#[test]
fn greedy_digit_run_consumes_whole_run() {
    let outcome = match_pattern(FUEL, &cv("abc123def"), &cv("\\d+"), false, &Vec::new(), None)
        .unwrap();
    assert!(outcome.matched);
    assert_eq!(outcome.rest, cv("def"));
}

#[test]
fn greedy_digit_run_reaches_end_of_line() {
    let outcome = match_pattern(FUEL, &cv("abc123"), &cv("\\d+"), false, &Vec::new(), None)
        .unwrap();
    assert!(outcome.matched);
    assert_eq!(outcome.rest, cv(""));
}

#[test]
fn free_search_shifts_past_prefix() {
    let outcome = match_pattern(FUEL, &cv("aaabbbzz"), &cv("b+"), false, &Vec::new(), None)
        .unwrap();
    assert!(outcome.matched);
    assert_eq!(outcome.rest, cv("zz"));
}

#[test]
fn group_records_capture() {
    let outcome = match_pattern(FUEL, &cv("dogs!"), &cv("(cat|dog)s"), false, &Vec::new(), None)
        .unwrap();
    assert!(outcome.matched);
    assert_eq!(outcome.refs, vec![cv("dog")]);
    assert_eq!(outcome.rest, cv("!"));
}

#[test]
fn failed_alternative_leaves_no_capture() {
    let outcome = match_pattern(
        FUEL,
        &cv("by"),
        &cv("((a)x|(b)y)"),
        false,
        &Vec::new(),
        None,
    )
    .unwrap();
    assert!(outcome.matched);
    // The first alternative `(a)x` failed; only the captures of the
    // successful alternative and of the whole group remain.
    assert_eq!(outcome.refs, vec![cv("b"), cv("by")]);
}

#[test]
fn committed_mismatch_fails() {
    let outcome = match_pattern(FUEL, &cv("xabc"), &cv("abc"), true, &Vec::new(), None).unwrap();
    assert!(!outcome.matched);
}

#[test]
fn step_with_no_fuel_reports_it() {
    let r = match_pattern(0, &cv("a"), &cv("a"), false, &Vec::new(), None);
    assert!(matches!(r, Err(MatchError::OutOfFuel)));
}
