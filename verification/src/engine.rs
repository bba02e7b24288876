//! The matching engine: one recursive step per atom.
//!
//! The specification functions in this module define, over mathematical
//! sequences, exactly what one matching step does; the executable functions
//! mirror them and are proved to return the same outcome.  A step consumes
//! the leading atom of the pattern, consumes the subject characters that
//! atom accepts (honouring a trailing `+` or `?`), and recurses on what is
//! left.  While `must_match` is still false the engine may instead discard
//! one leading subject character and retry, which is how an unanchored
//! pattern is found anywhere in the line; once an anchor is consumed or any
//! atom has matched, `must_match` is true for good and a failed mandatory
//! atom ends the attempt.
//!
//! The recursion budget (`fuel`) bounds the recursion depth.  A
//! backreference is matched by splicing the captured text in front of the
//! remaining pattern, and a capture may itself contain backreference
//! escapes, so there are patterns whose attempt never finishes; the budget
//! turns that into the reported outcome `OutOfFuel` instead.
//!
//! A group's capture is committed to the store only once one of its
//! alternatives has been confirmed to match; an alternative that fails
//! leaves no stray captures behind for its siblings.

use vstd::prelude::*;
use crate::conditions::Cond;
use crate::conditions::any_cond_sat;
use crate::conditions::escape_cond;
use crate::conditions::match_next;
use crate::conditions::plain_cond;
use crate::conditions::spec_escape_cond;
use crate::conditions::spec_plain_cond;
use crate::errors::MatchError;
use crate::parse::group_segments;
use crate::parse::parse_bracket;
use crate::parse::spec_group_segments;
use crate::parse::spec_parse_bracket;
use crate::util::clone_chars;
use crate::util::clone_refs;
use crate::util::concat_chars;
use crate::util::store_view;
use crate::util::subvec;

verus! {

/// What one finished matching step yields: whether it matched, the subject
/// characters still unconsumed, and the capture store after the step.
pub struct StepOk {
    pub matched: bool,
    pub rest: Seq<char>,
    pub refs: Seq<Seq<char>>,
}

/// The executable counterpart of [`StepOk`].
pub struct MatchOutcome {
    pub matched: bool,
    pub rest: Vec<char>,
    pub refs: Vec<Vec<char>>,
}

/// How many leading subject characters (from index `i` on) the current atom
/// consumes.  `None` means a negated class met a forbidden character, which
/// fails the whole step at once.  A `+` atom consumes greedily; otherwise at
/// most one character is consumed.  For a negated class the lookahead
/// character `cag`, when set, stops consumption just before it.
pub open spec fn spec_scan_count(
    input: Seq<char>,
    i: int,
    conds: Seq<Cond>,
    neg: bool,
    plus: bool,
    cag: Option<char>,
) -> Option<int>
    decreases input.len() - i,
{
    if i < 0 || i >= input.len() {
        Some(i)
    } else {
        let c = input[i];
        if any_cond_sat(c, conds) {
            if neg {
                None
            } else if plus {
                spec_scan_count(input, i + 1, conds, neg, plus, cag)
            } else {
                Some(i + 1)
            }
        } else {
            if neg {
                if cag == Some(c) {
                    Some(i)
                } else if plus {
                    spec_scan_count(input, i + 1, conds, neg, plus, cag)
                } else {
                    Some(i + 1)
                }
            } else {
                Some(i)
            }
        }
    }
}

/// An acceptance set of exactly one condition.
pub open spec fn single_cond(c: Cond) -> Seq<Cond> {
    seq![c]
}

/// One matching step: the subject-exhausted check, then dispatch on the
/// leading pattern atom.
pub open spec fn spec_step(
    fuel: nat,
    input: Seq<char>,
    pattern: Seq<char>,
    must_match: bool,
    refs: Seq<Seq<char>>,
    cag: Option<char>,
) -> Result<StepOk, MatchError>
    decreases fuel, 1int, 0int,
{
    if fuel == 0 {
        Err(MatchError::OutOfFuel)
    } else if input.len() == 0 {
        // An exhausted subject satisfies exactly the end anchor.
        Ok(StepOk { matched: pattern.len() == 1 && pattern[0] == '$', rest: input, refs })
    } else if pattern.len() == 0 {
        // Nothing left to require.
        Ok(StepOk { matched: true, rest: input, refs })
    } else {
        let c0 = pattern[0];
        if c0 == '^' && !must_match {
            // Consume the start anchor; from here on the position is fixed.
            spec_step((fuel - 1) as nat, input, pattern.skip(1), true, refs, None)
        } else if c0 == '\\' {
            if pattern.len() == 1 {
                Err(MatchError::DanglingEscape)
            } else {
                let c1 = pattern[1];
                if 49 <= c1 as u32 <= 57 && c1 as u32 - 49 < refs.len() {
                    // A backreference with a capture on hand: splice the
                    // captured text in front of the remaining pattern.
                    spec_step(
                        (fuel - 1) as nat,
                        input,
                        refs[c1 as u32 - 49] + pattern.skip(2),
                        true,
                        refs,
                        cag,
                    )
                } else {
                    // A class escape, or a backreference with no capture:
                    // the escaped character resolves to one condition.
                    spec_atom(fuel, input, pattern, must_match, refs, cag, single_cond(spec_escape_cond(c1)), 1, false)
                }
            }
        } else if c0 == '[' {
            match spec_parse_bracket(pattern) {
                None => Err(MatchError::UnterminatedBracket),
                Some((conds, neg, close)) => spec_atom(
                    fuel,
                    input,
                    pattern,
                    must_match,
                    refs,
                    cag,
                    conds,
                    close,
                    neg,
                ),
            }
        } else if c0 == '(' {
            match spec_group_segments(pattern) {
                None => Err(MatchError::UnterminatedGroup),
                Some((segs, close)) => spec_group(
                    fuel,
                    input,
                    pattern,
                    must_match,
                    refs,
                    cag,
                    segs,
                    close,
                ),
            }
        } else {
            spec_atom(fuel, input, pattern, must_match, refs, cag, single_cond(spec_plain_cond(c0)), 0, false)
        }
    }
}

/// The common tail of a single-condition-set atom (a literal, an escape or a
/// bracket class, whose last pattern character stands at index `last`):
/// apply a trailing quantifier, consume subject characters, and go on.
pub open spec fn spec_atom(
    fuel: nat,
    input: Seq<char>,
    pattern: Seq<char>,
    must_match: bool,
    refs: Seq<Seq<char>>,
    cag: Option<char>,
    conds: Seq<Cond>,
    last: int,
    neg: bool,
) -> Result<StepOk, MatchError>
    decreases fuel, 0int, 0int,
{
    if fuel == 0 {
        Err(MatchError::OutOfFuel)
    } else {
        let plus = last + 1 < pattern.len() && pattern[last + 1] == '+';
        let qmark = last + 1 < pattern.len() && pattern[last + 1] == '?';
        let last2 = if plus || qmark {
            last + 1
        } else {
            last
        };
        match spec_scan_count(input, 0, conds, neg, plus, cag) {
            // A negated class met a forbidden character: a hard local failure.
            None => Ok(StepOk { matched: false, rest: input, refs }),
            Some(n) => {
                let matched = n > 0;
                let skip = qmark && n == 0;
                // With nothing matched and no `?` to excuse it, one subject
                // character is still discarded: that is the free-start shift.
                let consumed: int = if skip {
                    0
                } else if n > 0 {
                    n
                } else {
                    1
                };
                let input2 = input.skip(consumed);
                if matched || skip {
                    let pat2 = pattern.skip(last2 + 1);
                    if pat2.len() == 0 {
                        Ok(StepOk { matched: true, rest: input2, refs })
                    } else if neg && input2.len() == 0 {
                        // An exhausted subject vacuously satisfies what
                        // remains of a negated-class run.
                        Ok(StepOk { matched: true, rest: input2, refs })
                    } else {
                        spec_step(
                            (fuel - 1) as nat,
                            input2,
                            pat2,
                            must_match || matched,
                            refs,
                            cag,
                        )
                    }
                } else if must_match {
                    Ok(StepOk { matched: false, rest: input2, refs })
                } else if neg && input2.len() == 0 {
                    Ok(StepOk { matched: true, rest: input2, refs })
                } else {
                    spec_step((fuel - 1) as nat, input2, pattern, must_match, refs, cag)
                }
            },
        }
    }
}

/// A group atom: try the alternatives in order; on the first success commit
/// the captured text and go on behind the closing `)`, with the match
/// position fixed.  If no alternative matches, the whole step fails with no
/// retry at a later start position.
pub open spec fn spec_group(
    fuel: nat,
    input: Seq<char>,
    pattern: Seq<char>,
    must_match: bool,
    refs: Seq<Seq<char>>,
    cag: Option<char>,
    segs: Seq<Seq<char>>,
    close: int,
) -> Result<StepOk, MatchError>
    decreases fuel, 0int, 1int,
{
    if fuel == 0 {
        Err(MatchError::OutOfFuel)
    } else {
        match spec_try_alts((fuel - 1) as nat, segs, pattern, input, must_match, refs) {
            Err(e) => Err(e),
            Ok(None) => Ok(StepOk { matched: false, rest: input, refs }),
            Ok(Some((rest1, refs2))) => {
                let captured = input.take(input.len() - rest1.len());
                let refs3 = refs2.push(captured);
                let after = pattern.skip(close + 1);
                if after.len() == 0 {
                    // Nothing after the group: succeed at once.
                    Ok(StepOk { matched: true, rest: rest1, refs: refs3 })
                } else {
                    match spec_step((fuel - 1) as nat, rest1, after, true, refs3, cag) {
                        Err(e) => Err(e),
                        Ok(o) => Ok(
                            StepOk {
                                matched: o.matched,
                                rest: if o.matched {
                                    o.rest
                                } else {
                                    input
                                },
                                refs: o.refs,
                            },
                        ),
                    }
                }
            },
        }
    }
}

/// Tries the group's alternatives in order against the same subject and
/// capture store; yields the unconsumed subject and the store of the first
/// alternative that matches, or `None` when none does.  For an alternative
/// that is itself a bracket class, the pattern character just past the
/// closing `)` becomes the negated class's lookahead.
pub open spec fn spec_try_alts(
    fuel: nat,
    segs: Seq<Seq<char>>,
    gpat: Seq<char>,
    input: Seq<char>,
    must_match: bool,
    refs: Seq<Seq<char>>,
) -> Result<Option<(Seq<char>, Seq<Seq<char>>)>, MatchError>
    decreases fuel, 2int, segs.len(),
{
    if segs.len() == 0 {
        Ok(None)
    } else {
        let seg = segs[0];
        let cag2: Option<char> = if seg.len() > 0 && seg[0] == '[' && seg.len() + 2 < gpat.len() {
            Some(gpat[seg.len() + 2int])
        } else {
            None
        };
        match spec_step(fuel, input, seg, must_match, refs, cag2) {
            Err(e) => Err(e),
            Ok(o) => if o.matched {
                Ok(Some((o.rest, o.refs)))
            } else {
                spec_try_alts(fuel, segs.skip(1), gpat, input, must_match, refs)
            },
        }
    }
}

/// The engine only ever removes characters from the front of the subject:
/// what it leaves behind is a suffix of what it was given.
pub open spec fn consumes_prefix(input: Seq<char>, rest: Seq<char>) -> bool {
    rest.len() <= input.len() && rest == input.skip(input.len() - rest.len())
}

proof fn lemma_consumes_refl(s: Seq<char>)
    ensures
        consumes_prefix(s, s),
{
    assert(s.skip(0) =~= s);
}

proof fn lemma_consumes_skip(s: Seq<char>, k: int)
    requires
        0 <= k <= s.len(),
    ensures
        consumes_prefix(s, s.skip(k)),
{
    assert(s.skip(s.len() - s.skip(k).len()) =~= s.skip(k));
}

proof fn lemma_consumes_trans(a: Seq<char>, b: Seq<char>, c: Seq<char>)
    requires
        consumes_prefix(a, b),
        consumes_prefix(b, c),
    ensures
        consumes_prefix(a, c),
{
    let x = a.len() - b.len();
    let y = b.len() - c.len();
    assert(a.skip(x).skip(y) =~= a.skip(x + y));
}

proof fn lemma_scan_count_bounds(
    input: Seq<char>,
    i: int,
    conds: Seq<Cond>,
    neg: bool,
    plus: bool,
    cag: Option<char>,
)
    requires
        0 <= i <= input.len(),
    ensures
        (match spec_scan_count(input, i, conds, neg, plus, cag) {
            Some(n) => i <= n <= input.len(),
            None => true,
        }),
    decreases input.len() - i,
{
    if i < input.len() {
        lemma_scan_count_bounds(input, i + 1, conds, neg, plus, cag);
    }
}

/// Whatever one step does, the subject it hands back is a suffix of the
/// subject it was given.
pub proof fn lemma_step_consumes(
    fuel: nat,
    input: Seq<char>,
    pattern: Seq<char>,
    must_match: bool,
    refs: Seq<Seq<char>>,
    cag: Option<char>,
)
    ensures
        (match spec_step(fuel, input, pattern, must_match, refs, cag) {
            Ok(o) => consumes_prefix(input, o.rest),
            Err(_) => true,
        }),
    decreases fuel, 1int, 0int,
{
    if fuel == 0 {
    } else if input.len() == 0 {
        lemma_consumes_refl(input);
    } else if pattern.len() == 0 {
        lemma_consumes_refl(input);
    } else {
        let c0 = pattern[0];
        if c0 == '^' && !must_match {
            lemma_step_consumes((fuel - 1) as nat, input, pattern.skip(1), true, refs, None);
        } else if c0 == '\\' {
            if pattern.len() == 1 {
            } else {
                let c1 = pattern[1];
                if 49 <= c1 as u32 <= 57 && c1 as u32 - 49 < refs.len() {
                    lemma_step_consumes(
                        (fuel - 1) as nat,
                        input,
                        refs[c1 as u32 - 49] + pattern.skip(2),
                        true,
                        refs,
                        cag,
                    );
                } else {
                    lemma_atom_consumes(
                        fuel,
                        input,
                        pattern,
                        must_match,
                        refs,
                        cag,
                        single_cond(spec_escape_cond(c1)),
                        1,
                        false,
                    );
                }
            }
        } else if c0 == '[' {
            match spec_parse_bracket(pattern) {
                None => {},
                Some((conds, neg, close)) => {
                    lemma_atom_consumes(
                        fuel,
                        input,
                        pattern,
                        must_match,
                        refs,
                        cag,
                        conds,
                        close,
                        neg,
                    );
                },
            }
        } else if c0 == '(' {
            match spec_group_segments(pattern) {
                None => {},
                Some((segs, close)) => {
                    lemma_group_consumes(
                        fuel,
                        input,
                        pattern,
                        must_match,
                        refs,
                        cag,
                        segs,
                        close,
                    );
                },
            }
        } else {
            lemma_atom_consumes(
                fuel,
                input,
                pattern,
                must_match,
                refs,
                cag,
                single_cond(spec_plain_cond(c0)),
                0,
                false,
            );
        }
    }
}

proof fn lemma_atom_consumes(
    fuel: nat,
    input: Seq<char>,
    pattern: Seq<char>,
    must_match: bool,
    refs: Seq<Seq<char>>,
    cag: Option<char>,
    conds: Seq<Cond>,
    last: int,
    neg: bool,
)
    requires
        input.len() > 0,
    ensures
        (match spec_atom(fuel, input, pattern, must_match, refs, cag, conds, last, neg) {
            Ok(o) => consumes_prefix(input, o.rest),
            Err(_) => true,
        }),
    decreases fuel, 0int, 0int,
{
    if fuel == 0 {
    } else {
        let plus = last + 1 < pattern.len() && pattern[last + 1] == '+';
        let qmark = last + 1 < pattern.len() && pattern[last + 1] == '?';
        let last2 = if plus || qmark {
            last + 1
        } else {
            last
        };
        lemma_scan_count_bounds(input, 0, conds, neg, plus, cag);
        match spec_scan_count(input, 0, conds, neg, plus, cag) {
            None => {
                lemma_consumes_refl(input);
            },
            Some(n) => {
                let matched = n > 0;
                let skip = qmark && n == 0;
                let consumed: int = if skip {
                    0
                } else if n > 0 {
                    n
                } else {
                    1
                };
                let input2 = input.skip(consumed);
                lemma_consumes_skip(input, consumed);
                if matched || skip {
                    let pat2 = pattern.skip(last2 + 1);
                    if pat2.len() == 0 {
                    } else if neg && input2.len() == 0 {
                    } else {
                        lemma_step_consumes(
                            (fuel - 1) as nat,
                            input2,
                            pat2,
                            must_match || matched,
                            refs,
                            cag,
                        );
                        match spec_step((fuel - 1) as nat, input2, pat2, must_match || matched, refs, cag) {
                            Ok(o) => {
                                lemma_consumes_trans(input, input2, o.rest);
                            },
                            Err(_) => {},
                        }
                    }
                } else if must_match {
                } else if neg && input2.len() == 0 {
                } else {
                    lemma_step_consumes((fuel - 1) as nat, input2, pattern, must_match, refs, cag);
                    match spec_step((fuel - 1) as nat, input2, pattern, must_match, refs, cag) {
                        Ok(o) => {
                            lemma_consumes_trans(input, input2, o.rest);
                        },
                        Err(_) => {},
                    }
                }
            },
        }
    }
}

proof fn lemma_group_consumes(
    fuel: nat,
    input: Seq<char>,
    pattern: Seq<char>,
    must_match: bool,
    refs: Seq<Seq<char>>,
    cag: Option<char>,
    segs: Seq<Seq<char>>,
    close: int,
)
    ensures
        (match spec_group(fuel, input, pattern, must_match, refs, cag, segs, close) {
            Ok(o) => consumes_prefix(input, o.rest),
            Err(_) => true,
        }),
    decreases fuel, 0int, 1int,
{
    if fuel == 0 {
    } else {
        lemma_alts_consumes((fuel - 1) as nat, segs, pattern, input, must_match, refs);
        match spec_try_alts((fuel - 1) as nat, segs, pattern, input, must_match, refs) {
            Err(_) => {},
            Ok(None) => {
                lemma_consumes_refl(input);
            },
            Ok(Some((rest1, refs2))) => {
                let captured = input.take(input.len() - rest1.len());
                let refs3 = refs2.push(captured);
                let after = pattern.skip(close + 1);
                if after.len() == 0 {
                } else {
                    lemma_step_consumes((fuel - 1) as nat, rest1, after, true, refs3, cag);
                    match spec_step((fuel - 1) as nat, rest1, after, true, refs3, cag) {
                        Ok(o) => {
                            if o.matched {
                                lemma_consumes_trans(input, rest1, o.rest);
                            } else {
                                lemma_consumes_refl(input);
                            }
                        },
                        Err(_) => {},
                    }
                }
            },
        }
    }
}

/// The subject an alternative leaves unconsumed is a suffix of the subject
/// the group was tried on.
pub proof fn lemma_alts_consumes(
    fuel: nat,
    segs: Seq<Seq<char>>,
    gpat: Seq<char>,
    input: Seq<char>,
    must_match: bool,
    refs: Seq<Seq<char>>,
)
    ensures
        (match spec_try_alts(fuel, segs, gpat, input, must_match, refs) {
            Ok(Some((rest1, _))) => consumes_prefix(input, rest1),
            _ => true,
        }),
    decreases fuel, 2int, segs.len(),
{
    if segs.len() == 0 {
    } else {
        let seg = segs[0];
        let cag2: Option<char> = if seg.len() > 0 && seg[0] == '[' && seg.len() + 2 < gpat.len() {
            Some(gpat[seg.len() + 2int])
        } else {
            None
        };
        lemma_step_consumes(fuel, input, seg, must_match, refs, cag2);
        match spec_step(fuel, input, seg, must_match, refs, cag2) {
            Err(_) => {},
            Ok(o) => {
                if !o.matched {
                    lemma_alts_consumes(fuel, segs.skip(1), gpat, input, must_match, refs);
                }
            },
        }
    }
}

/// How an executable step outcome corresponds to the specified one.
pub open spec fn outcome_eq(r: Result<MatchOutcome, MatchError>, s: Result<StepOk, MatchError>) -> bool {
    match r {
        Ok(o) => match s {
            Ok(so) => o.matched == so.matched && o.rest@ == so.rest && store_view(o.refs@)
                == so.refs,
            Err(_) => false,
        },
        Err(e) => match s {
            Ok(_) => false,
            Err(se) => e == se,
        },
    }
}

/// How an executable alternatives outcome corresponds to the specified one.
pub open spec fn alts_eq(
    r: Result<Option<(Vec<char>, Vec<Vec<char>>)>, MatchError>,
    s: Result<Option<(Seq<char>, Seq<Seq<char>>)>, MatchError>,
) -> bool {
    match r {
        Ok(ro) => match s {
            Ok(so) => match ro {
                None => so is None,
                Some((rest, refs)) => match so {
                    None => false,
                    Some(sp) => rest@ == sp.0 && store_view(refs@) == sp.1,
                },
            },
            Err(_) => false,
        },
        Err(e) => match s {
            Ok(_) => false,
            Err(se) => e == se,
        },
    }
}

fn count_exec(
    input: &Vec<char>,
    i: usize,
    conds: &Vec<Cond>,
    neg: bool,
    plus: bool,
    cag: Option<char>,
) -> (r: Option<usize>)
    requires
        i <= input@.len(),
    ensures
        (match r {
            Some(n) => spec_scan_count(input@, i as int, conds@, neg, plus, cag) == Some(n as int)
                && i <= n <= input@.len(),
            None => spec_scan_count(input@, i as int, conds@, neg, plus, cag) is None,
        }),
    decreases input@.len() - i,
{
    if i >= input.len() {
        return Some(i);
    }
    let c = input[i];
    if match_next(c, conds) {
        if neg {
            None
        } else if plus {
            count_exec(input, i + 1, conds, neg, plus, cag)
        } else {
            Some(i + 1)
        }
    } else {
        if neg {
            let stop = match cag {
                Some(g) => g == c,
                None => false,
            };
            if stop {
                Some(i)
            } else if plus {
                count_exec(input, i + 1, conds, neg, plus, cag)
            } else {
                Some(i + 1)
            }
        } else {
            Some(i)
        }
    }
}

fn atom_exec(
    fuel: u64,
    input: &Vec<char>,
    pattern: &Vec<char>,
    must_match: bool,
    refs: &Vec<Vec<char>>,
    cag: Option<char>,
    conds: Vec<Cond>,
    last: usize,
    neg: bool,
) -> (r: Result<MatchOutcome, MatchError>)
    requires
        fuel >= 1,
        input@.len() > 0,
        last < pattern@.len(),
    ensures
        outcome_eq(
            r,
            spec_atom(
                fuel as nat,
                input@,
                pattern@,
                must_match,
                store_view(refs@),
                cag,
                conds@,
                last as int,
                neg,
            ),
        ),
    decreases fuel, 0int, 0int,
{
    let plen = pattern.len();
    let plus = last < plen - 1 && pattern[last + 1] == '+';
    let qmark = last < plen - 1 && pattern[last + 1] == '?';
    let last2 = if plus || qmark {
        last + 1
    } else {
        last
    };
    match count_exec(input, 0, &conds, neg, plus, cag) {
        None => Ok(MatchOutcome { matched: false, rest: clone_chars(input), refs: clone_refs(refs) }),
        Some(n) => {
            let matched = n > 0;
            let skip = qmark && n == 0;
            let consumed: usize = if skip {
                0
            } else if n > 0 {
                n
            } else {
                1
            };
            let input2 = subvec(input, consumed, input.len());
            if matched || skip {
                let pat2 = subvec(pattern, last2 + 1, pattern.len());
                if pat2.len() == 0 {
                    Ok(MatchOutcome { matched: true, rest: input2, refs: clone_refs(refs) })
                } else if neg && input2.len() == 0 {
                    Ok(MatchOutcome { matched: true, rest: input2, refs: clone_refs(refs) })
                } else {
                    match_pattern(fuel - 1, &input2, &pat2, must_match || matched, refs, cag)
                }
            } else if must_match {
                Ok(MatchOutcome { matched: false, rest: input2, refs: clone_refs(refs) })
            } else if neg && input2.len() == 0 {
                Ok(MatchOutcome { matched: true, rest: input2, refs: clone_refs(refs) })
            } else {
                match_pattern(fuel - 1, &input2, pattern, must_match, refs, cag)
            }
        },
    }
}

/// One matching step of the engine, as executable code: decides whether the
/// pattern matches the subject from here on (or, while `must_match` is still
/// false, anywhere further right), and yields the unconsumed subject and the
/// capture store alongside.  Returns an error for a malformed pattern or an
/// exhausted recursion budget.
pub fn match_pattern(
    fuel: u64,
    input_line: &Vec<char>,
    pattern: &Vec<char>,
    must_match: bool,
    backreferences: &Vec<Vec<char>>,
    char_after_group: Option<char>,
) -> (r: Result<MatchOutcome, MatchError>)
    ensures
        outcome_eq(
            r,
            spec_step(
                fuel as nat,
                input_line@,
                pattern@,
                must_match,
                store_view(backreferences@),
                char_after_group,
            ),
        ),
    decreases fuel, 1int, 0int,
{
    if fuel == 0 {
        return Err(MatchError::OutOfFuel);
    }
    if input_line.len() == 0 {
        let m = pattern.len() == 1 && pattern[0] == '$';
        let rest: Vec<char> = Vec::new();
        proof {
            assert(rest@ =~= input_line@);
        }
        return Ok(MatchOutcome { matched: m, rest, refs: clone_refs(backreferences) });
    }
    if pattern.len() == 0 {
        return Ok(
            MatchOutcome {
                matched: true,
                rest: clone_chars(input_line),
                refs: clone_refs(backreferences),
            },
        );
    }
    let c0 = pattern[0];
    if c0 == '^' && !must_match {
        let p2 = subvec(pattern, 1, pattern.len());
        return match_pattern(fuel - 1, input_line, &p2, true, backreferences, None);
    }
    if c0 == '\\' {
        if pattern.len() == 1 {
            return Err(MatchError::DanglingEscape);
        }
        let c1 = pattern[1];
        let u = c1 as u32;
        if 49 <= u && u <= 57 {
            let idx = (u - 49) as usize;
            if idx < backreferences.len() {
                let tail = subvec(pattern, 2, pattern.len());
                let spliced = concat_chars(&backreferences[idx], &tail);
                proof {
                    assert(store_view(backreferences@)[idx as int] == backreferences@[idx as int]@);
                    assert(spliced@ == store_view(backreferences@)[idx as int] + pattern@.skip(2));
                }
                return match_pattern(
                    fuel - 1,
                    input_line,
                    &spliced,
                    true,
                    backreferences,
                    char_after_group,
                );
            }
        }
        let mut conds: Vec<Cond> = Vec::new();
        conds.push(escape_cond(c1));
        proof {
            assert(conds@ =~= single_cond(spec_escape_cond(c1)));
        }
        return atom_exec(
            fuel,
            input_line,
            pattern,
            must_match,
            backreferences,
            char_after_group,
            conds,
            1,
            false,
        );
    }
    if c0 == '[' {
        return match parse_bracket(pattern) {
            None => Err(MatchError::UnterminatedBracket),
            Some((conds, neg, close)) => atom_exec(
                fuel,
                input_line,
                pattern,
                must_match,
                backreferences,
                char_after_group,
                conds,
                close,
                neg,
            ),
        };
    }
    if c0 == '(' {
        return match group_segments(pattern) {
            None => Err(MatchError::UnterminatedGroup),
            Some((segs, close)) => {
                let ta = try_alts_exec(
                    fuel - 1,
                    &segs,
                    0,
                    pattern,
                    input_line,
                    must_match,
                    backreferences,
                );
                proof {
                    assert(store_view(segs@).skip(0) =~= store_view(segs@));
                    assert(spec_step(fuel as nat, input_line@, pattern@, must_match,
                        store_view(backreferences@), char_after_group) == spec_group(
                        fuel as nat, input_line@, pattern@, must_match,
                        store_view(backreferences@), char_after_group, store_view(segs@),
                        close as int));
                }
                match ta {
                    Err(e) => Err(e),
                    Ok(None) => Ok(
                        MatchOutcome {
                            matched: false,
                            rest: clone_chars(input_line),
                            refs: clone_refs(backreferences),
                        },
                    ),
                    Ok(Some((rest1, refs2))) => {
                        proof {
                            lemma_alts_consumes(
                                (fuel - 1) as nat,
                                store_view(segs@),
                                pattern@,
                                input_line@,
                                must_match,
                                store_view(backreferences@),
                            );
                        }
                        let k = input_line.len() - rest1.len();
                        let captured = subvec(input_line, 0, k);
                        let mut refs3 = refs2;
                        refs3.push(captured);
                        proof {
                            assert(store_view(refs3@) =~= store_view(refs2@).push(captured@));
                        }
                        let after = subvec(pattern, close + 1, pattern.len());
                        if after.len() == 0 {
                            Ok(MatchOutcome { matched: true, rest: rest1, refs: refs3 })
                        } else {
                            match match_pattern(
                                fuel - 1,
                                &rest1,
                                &after,
                                true,
                                &refs3,
                                char_after_group,
                            ) {
                                Err(e) => Err(e),
                                Ok(o) => {
                                    if o.matched {
                                        Ok(MatchOutcome { matched: true, rest: o.rest, refs: o.refs })
                                    } else {
                                        Ok(
                                            MatchOutcome {
                                                matched: false,
                                                rest: clone_chars(input_line),
                                                refs: o.refs,
                                            },
                                        )
                                    }
                                },
                            }
                        }
                    },
                }
            },
        };
    }
    let mut conds: Vec<Cond> = Vec::new();
    conds.push(plain_cond(c0));
    proof {
        assert(conds@ =~= single_cond(spec_plain_cond(c0)));
    }
    atom_exec(
        fuel,
        input_line,
        pattern,
        must_match,
        backreferences,
        char_after_group,
        conds,
        0,
        false,
    )
}

fn try_alts_exec(
    fuel: u64,
    segs: &Vec<Vec<char>>,
    j: usize,
    gpat: &Vec<char>,
    input: &Vec<char>,
    must_match: bool,
    refs: &Vec<Vec<char>>,
) -> (r: Result<Option<(Vec<char>, Vec<Vec<char>>)>, MatchError>)
    requires
        j <= segs@.len(),
    ensures
        alts_eq(
            r,
            spec_try_alts(
                fuel as nat,
                store_view(segs@).skip(j as int),
                gpat@,
                input@,
                must_match,
                store_view(refs@),
            ),
        ),
    decreases fuel, 2int, segs@.len() - j,
{
    if j >= segs.len() {
        proof {
            assert(store_view(segs@).skip(j as int).len() == 0);
        }
        return Ok(None);
    }
    let seg = &segs[j];
    let cag2: Option<char> = if seg.len() > 0 && seg[0] == '[' && seg.len() <= gpat.len()
        && gpat.len() - seg.len() > 2 {
        Some(gpat[seg.len() + 2])
    } else {
        None
    };
    proof {
        assert(store_view(segs@).skip(j as int)[0] == seg@);
    }
    match match_pattern(fuel, input, seg, must_match, refs, cag2) {
        Err(e) => Err(e),
        Ok(o) => {
            if o.matched {
                Ok(Some((o.rest, o.refs)))
            } else {
                let r = try_alts_exec(fuel, segs, j + 1, gpat, input, must_match, refs);
                proof {
                    assert(store_view(segs@).skip(j as int).skip(1) =~= store_view(segs@).skip(
                        j as int + 1,
                    ));
                }
                r
            }
        },
    }
}

} // verus!
