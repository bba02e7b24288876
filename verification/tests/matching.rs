// Scenario tests for the matching engine, through the public API.

use line_regex::MatchError;
use line_regex::matcher;

fn cv(s: &str) -> Vec<char> {
    s.chars().collect()
}

fn m(pattern: &str, subject: &str) -> Result<bool, MatchError> {
    matcher::matches(&cv(pattern), &cv(subject))
}

#[test]
fn literal_somewhere_in_line() {
    assert_eq!(m("abc", "xxabcxx"), Ok(true));
}

#[test]
fn literal_absent() {
    assert_eq!(m("abc", "xyz"), Ok(false));
}

#[test]
fn anchored_exact() {
    assert_eq!(m("^abc$", "abc"), Ok(true));
}

#[test]
fn anchored_too_long() {
    assert_eq!(m("^abc$", "abcd"), Ok(false));
}

#[test]
fn start_anchor_forces_position_zero() {
    assert_eq!(m("^abc", "zzabc"), Ok(false));
}

#[test]
fn digit_run_found() {
    assert_eq!(m("\\d+", "abc123"), Ok(true));
}

#[test]
fn negated_class_all_forbidden() {
    assert_eq!(m("[^xyz]+", "xyz"), Ok(false));
}

#[test]
fn optional_absent() {
    assert_eq!(m("ca?t", "ct"), Ok(true));
}

#[test]
fn optional_cannot_cover_two() {
    assert_eq!(m("ca?t", "caat"), Ok(false));
}

#[test]
fn one_or_more_greedy() {
    assert_eq!(m("ca+t", "caaat"), Ok(true));
}

#[test]
fn alternation_picks_branch() {
    assert_eq!(m("(cat|dog)", "dog"), Ok(true));
}

#[test]
fn alternation_with_tail() {
    assert_eq!(m("(cat|dog)s", "dogs"), Ok(true));
}

#[test]
fn backreference_repeats_capture() {
    assert_eq!(m("(\\w+) and \\1", "cat and cat"), Ok(true));
}

#[test]
fn backreference_mismatch() {
    assert_eq!(m("(\\w+) and \\1", "cat and dog"), Ok(false));
}

#[test]
fn same_inputs_same_answer() {
    let pattern = cv("(a|b)c+d?");
    let subject = cv("zzbccc");
    let first = matcher::matches(&pattern, &subject);
    let second = matcher::matches(&pattern, &subject);
    assert_eq!(first, second);
    assert_eq!(pattern, cv("(a|b)c+d?"));
    assert_eq!(subject, cv("zzbccc"));
}

#[test]
fn free_start_search() {
    assert_eq!(m("b+", "aaabbb"), Ok(true));
}

#[test]
fn first_match_commits_the_start_position() {
    // Once an atom has matched, the start position is fixed: the engine
    // does not go back and retry the pattern one character further right.
    assert_eq!(m("ab", "aab"), Ok(false));
}

#[test]
fn empty_subject_empty_pattern() {
    assert_eq!(m("", ""), Ok(false));
}

#[test]
fn empty_subject_end_anchor() {
    assert_eq!(m("$", ""), Ok(true));
}

#[test]
fn empty_subject_other_pattern() {
    assert_eq!(m("abc", ""), Ok(false));
}

#[test]
fn empty_pattern_matches_at_once() {
    assert_eq!(m("", "anything"), Ok(true));
}

#[test]
fn wildcard_matches_any() {
    assert_eq!(m("a.c", "abc"), Ok(true));
    assert_eq!(m("a.c", "axc"), Ok(true));
    assert_eq!(m("a.c", "ac"), Ok(false));
}

#[test]
fn class_member_found() {
    assert_eq!(m("[abc]", "zzc"), Ok(true));
}

#[test]
fn negated_class_first_char_free() {
    assert_eq!(m("[^abc]", "def"), Ok(true));
}

#[test]
fn negated_class_violation() {
    assert_eq!(m("[^d]", "d"), Ok(false));
}

#[test]
fn class_with_symbolic_member() {
    assert_eq!(m("[\\d]", "5"), Ok(true));
    assert_eq!(m("[\\d]", "x"), Ok(false));
}

#[test]
fn whitespace_class() {
    assert_eq!(m("\\s", "a b"), Ok(true));
    assert_eq!(m("\\s", "ab"), Ok(false));
}

#[test]
fn word_class_beyond_ascii() {
    assert_eq!(m("\\w", "é"), Ok(true));
    assert_eq!(m("\\w", "!?"), Ok(false));
}

#[test]
fn escaped_dot_is_literal() {
    assert_eq!(m("\\.", "."), Ok(true));
    assert_eq!(m("\\.", "a"), Ok(false));
}

#[test]
fn backreference_without_capture_is_literal_digit() {
    assert_eq!(m("\\1", "1"), Ok(true));
    assert_eq!(m("\\1", "2"), Ok(false));
}

#[test]
fn group_found_later_in_line() {
    assert_eq!(m("(cat|dog)", "xxdog"), Ok(true));
}

#[test]
fn nested_groups() {
    assert_eq!(m("((a|b)c)", "bc"), Ok(true));
    assert_eq!(m("((a|b)c)", "zbc"), Ok(true));
    assert_eq!(m("((a|b)c)", "zzz"), Ok(false));
}

#[test]
fn two_captures_referenced_in_reverse() {
    assert_eq!(m("(a)(b)\\2\\1", "abba"), Ok(true));
    assert_eq!(m("(a)(b)\\2\\1", "abab"), Ok(false));
}

#[test]
fn negated_class_in_group_stops_before_lookahead() {
    assert_eq!(m("([^x]+)s", "cats"), Ok(true));
}

#[test]
fn negated_class_satisfied_by_exhausted_subject() {
    assert_eq!(m("[^z]+abc", "xy"), Ok(true));
}

#[test]
fn dollar_is_literal_against_remaining_subject() {
    assert_eq!(m("a$", "za$c"), Ok(true));
    assert_eq!(m("a$", "zac"), Ok(false));
}

#[test]
fn unterminated_bracket_is_an_error() {
    assert_eq!(m("[abc", "abc"), Err(MatchError::UnterminatedBracket));
}

#[test]
fn unterminated_group_is_an_error() {
    assert_eq!(m("(ab", "ab"), Err(MatchError::UnterminatedGroup));
}

#[test]
fn dangling_escape_is_an_error() {
    assert_eq!(m("ab\\", "ab"), Err(MatchError::DanglingEscape));
}

#[test]
fn bounded_repetition_is_unsupported() {
    assert_eq!(m("a{2}", "aa"), Err(MatchError::UnsupportedConstruct));
}

#[test]
fn query_group_is_unsupported() {
    assert_eq!(m("(?:ab)", "ab"), Err(MatchError::UnsupportedConstruct));
}

#[test]
fn self_splicing_backreference_exhausts_budget() {
    assert_eq!(m("(\\\\\\d)x\\1", "\\1x\\1"), Err(MatchError::OutOfFuel));
}
