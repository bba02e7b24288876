//! Pattern scanners: bracket classes, group alternatives, and the
//! well-formedness check a pattern must pass before matching.

use vstd::prelude::*;
use crate::conditions::Cond;
use crate::conditions::escape_cond;
use crate::conditions::spec_escape_cond;
use crate::errors::MatchError;
use crate::util::store_view;

verus! {

/// Scans a bracket class from index `i` (just after the opening `[`): the
/// member set collected so far, the negation flag, and finally the index of
/// the closing `]`.  `None` means the class never closes.
pub open spec fn spec_scan_bracket(
    p: Seq<char>,
    i: int,
    conds: Seq<Cond>,
    neg: bool,
) -> Option<(Seq<Cond>, bool, int)>
    decreases p.len() - i,
{
    if i < 0 || i >= p.len() {
        None
    } else {
        let c = p[i];
        if c == ']' {
            Some((conds, neg, i))
        } else if c == '^' && i == 1 {
            spec_scan_bracket(p, i + 1, conds, true)
        } else if c == '\\' {
            if i + 1 >= p.len() {
                None
            } else {
                spec_scan_bracket(p, i + 2, conds.push(spec_escape_cond(p[i + 1])), neg)
            }
        } else {
            spec_scan_bracket(p, i + 1, conds.push(Cond::Literal(c)), neg)
        }
    }
}

/// Parses a `[...]` construct standing at the front of `p`: the acceptance
/// set, the negation flag, and the index of the closing `]`.  A leading `^`
/// negates; an escaped pair contributes one combined member; every other
/// character is a literal member.
pub open spec fn spec_parse_bracket(p: Seq<char>) -> Option<(Seq<Cond>, bool, int)> {
    spec_scan_bracket(p, 1, Seq::empty(), false)
}

fn scan_bracket(p: &Vec<char>, i: usize, conds: Vec<Cond>, neg: bool) -> (r: Option<
    (Vec<Cond>, bool, usize),
>)
    ensures
        (match r {
            Some((cs, ng, close)) => spec_scan_bracket(p@, i as int, conds@, neg) == Some(
                (cs@, ng, close as int),
            ) && i <= close < p@.len(),
            None => spec_scan_bracket(p@, i as int, conds@, neg) is None,
        }),
    decreases p@.len() - i,
{
    if i >= p.len() {
        return None;
    }
    let c = p[i];
    if c == ']' {
        Some((conds, neg, i))
    } else if c == '^' && i == 1 {
        scan_bracket(p, i + 1, conds, true)
    } else if c == '\\' {
        if i + 1 >= p.len() {
            None
        } else {
            let mut cs = conds;
            cs.push(escape_cond(p[i + 1]));
            scan_bracket(p, i + 2, cs, neg)
        }
    } else {
        let mut cs = conds;
        cs.push(Cond::Literal(c));
        scan_bracket(p, i + 1, cs, neg)
    }
}

/// Parses the `[...]` construct standing at the front of `p`.
pub fn parse_bracket(p: &Vec<char>) -> (r: Option<(Vec<Cond>, bool, usize)>)
    ensures
        (match r {
            Some((cs, ng, close)) => spec_parse_bracket(p@) == Some((cs@, ng, close as int)) && 1
                <= close < p@.len(),
            None => spec_parse_bracket(p@) is None,
        }),
{
    let conds: Vec<Cond> = Vec::new();
    proof {
        assert(conds@ =~= Seq::<Cond>::empty());
    }
    scan_bracket(p, 1, conds, false)
}

/// Scans a group's body from index `i` (just after the opening `(`),
/// splitting the top-level alternatives at `|` while tracking the depth of
/// nested parentheses: the alternatives and the index of the matching `)`.
/// `None` means the group never closes.
pub open spec fn spec_scan_group(
    p: Seq<char>,
    i: int,
    depth: nat,
    cur: Seq<char>,
    segs: Seq<Seq<char>>,
) -> Option<(Seq<Seq<char>>, int)>
    decreases p.len() - i,
{
    if i < 0 || i >= p.len() {
        None
    } else {
        let c = p[i];
        if c == '(' {
            spec_scan_group(p, i + 1, depth + 1, cur.push(c), segs)
        } else if depth == 0 && c == ')' {
            Some((segs.push(cur), i))
        } else if depth == 0 && c == '|' {
            spec_scan_group(p, i + 1, 0, Seq::empty(), segs.push(cur))
        } else if c == ')' {
            spec_scan_group(p, i + 1, (depth - 1) as nat, cur.push(c), segs)
        } else {
            spec_scan_group(p, i + 1, depth, cur.push(c), segs)
        }
    }
}

/// The top-level alternatives of the group standing at the front of `p`, and
/// the index of its closing `)`.
pub open spec fn spec_group_segments(p: Seq<char>) -> Option<(Seq<Seq<char>>, int)> {
    spec_scan_group(p, 1, 0, Seq::empty(), Seq::empty())
}

fn scan_group(p: &Vec<char>, i: usize, depth: usize, cur: Vec<char>, segs: Vec<Vec<char>>) -> (r:
    Option<(Vec<Vec<char>>, usize)>)
    requires
        depth <= i,
    ensures
        (match r {
            Some((sv, close)) => spec_scan_group(p@, i as int, depth as nat, cur@, store_view(segs@))
                == Some((store_view(sv@), close as int)) && i <= close < p@.len(),
            None => spec_scan_group(p@, i as int, depth as nat, cur@, store_view(segs@)) is None,
        }),
    decreases p@.len() - i,
{
    if i >= p.len() {
        return None;
    }
    let c = p[i];
    if c == '(' {
        let mut cur2 = cur;
        cur2.push(c);
        scan_group(p, i + 1, depth + 1, cur2, segs)
    } else if depth == 0 && c == ')' {
        let mut segs2 = segs;
        segs2.push(cur);
        proof {
            assert(store_view(segs2@) =~= store_view(segs@).push(segs2@[segs@.len() as int]@));
        }
        Some((segs2, i))
    } else if depth == 0 && c == '|' {
        let mut segs2 = segs;
        segs2.push(cur);
        let fresh: Vec<char> = Vec::new();
        proof {
            assert(store_view(segs2@) =~= store_view(segs@).push(segs2@[segs@.len() as int]@));
            assert(fresh@ =~= Seq::<char>::empty());
        }
        scan_group(p, i + 1, 0, fresh, segs2)
    } else if c == ')' {
        let mut cur2 = cur;
        cur2.push(c);
        scan_group(p, i + 1, depth - 1, cur2, segs)
    } else {
        let mut cur2 = cur;
        cur2.push(c);
        scan_group(p, i + 1, depth, cur2, segs)
    }
}

/// Splits the group standing at the front of `p` into its top-level
/// alternatives, and gives the index of its closing `)`.
pub fn group_segments(p: &Vec<char>) -> (r: Option<(Vec<Vec<char>>, usize)>)
    ensures
        (match r {
            Some((sv, close)) => spec_group_segments(p@) == Some(
                (store_view(sv@), close as int),
            ) && 1 <= close < p@.len(),
            None => spec_group_segments(p@) is None,
        }),
{
    let cur: Vec<char> = Vec::new();
    let segs: Vec<Vec<char>> = Vec::new();
    proof {
        assert(cur@ =~= Seq::<char>::empty());
        assert(store_view(segs@) =~= Seq::<Seq<char>>::empty());
    }
    scan_group(p, 1, 0, cur, segs)
}

/// Checks the pattern text from index `i` on.  `depth` counts the groups
/// still open; `in_bracket` says whether the scan stands inside a `[...]`
/// class, where every character but `]` and an escape pair is an ordinary
/// member.  `None` means the remainder is well formed.
pub open spec fn spec_check_from(p: Seq<char>, i: int, depth: nat, in_bracket: bool) -> Option<
    MatchError,
>
    decreases p.len() - i,
{
    if i < 0 || i >= p.len() {
        if in_bracket {
            Some(MatchError::UnterminatedBracket)
        } else if depth > 0 {
            Some(MatchError::UnterminatedGroup)
        } else {
            None
        }
    } else {
        let c = p[i];
        if in_bracket {
            if c == ']' {
                spec_check_from(p, i + 1, depth, false)
            } else if c == '\\' {
                if i + 1 >= p.len() {
                    Some(MatchError::UnterminatedBracket)
                } else {
                    spec_check_from(p, i + 2, depth, true)
                }
            } else {
                spec_check_from(p, i + 1, depth, true)
            }
        } else if c == '\\' {
            if i + 1 >= p.len() {
                Some(MatchError::DanglingEscape)
            } else {
                spec_check_from(p, i + 2, depth, false)
            }
        } else if c == '[' {
            spec_check_from(p, i + 1, depth, true)
        } else if c == '{' {
            Some(MatchError::UnsupportedConstruct)
        } else if c == '(' {
            if i + 1 < p.len() && p[i + 1] == '?' {
                Some(MatchError::UnsupportedConstruct)
            } else {
                spec_check_from(p, i + 1, depth + 1, false)
            }
        } else if c == ')' && depth > 0 {
            spec_check_from(p, i + 1, (depth - 1) as nat, false)
        } else {
            spec_check_from(p, i + 1, depth, false)
        }
    }
}

/// What is wrong with a pattern, if anything: an unterminated `[` or `(`, a
/// dangling `\`, or an unsupported construct (bounded repetition `{`, a
/// group opened with `(?`).  `None` means the pattern is well formed.
pub open spec fn spec_check_pattern(p: Seq<char>) -> Option<MatchError> {
    spec_check_from(p, 0, 0, false)
}

fn check_from(p: &Vec<char>, i: usize, depth: usize, in_bracket: bool) -> (r: Option<MatchError>)
    requires
        depth <= i,
    ensures
        r == spec_check_from(p@, i as int, depth as nat, in_bracket),
    decreases p@.len() - i,
{
    if i >= p.len() {
        if in_bracket {
            Some(MatchError::UnterminatedBracket)
        } else if depth > 0 {
            Some(MatchError::UnterminatedGroup)
        } else {
            None
        }
    } else {
        let c = p[i];
        if in_bracket {
            if c == ']' {
                check_from(p, i + 1, depth, false)
            } else if c == '\\' {
                if i + 1 >= p.len() {
                    Some(MatchError::UnterminatedBracket)
                } else {
                    check_from(p, i + 2, depth, true)
                }
            } else {
                check_from(p, i + 1, depth, true)
            }
        } else if c == '\\' {
            if i + 1 >= p.len() {
                Some(MatchError::DanglingEscape)
            } else {
                check_from(p, i + 2, depth, false)
            }
        } else if c == '[' {
            check_from(p, i + 1, depth, true)
        } else if c == '{' {
            Some(MatchError::UnsupportedConstruct)
        } else if c == '(' {
            if i + 1 < p.len() && p[i + 1] == '?' {
                Some(MatchError::UnsupportedConstruct)
            } else {
                check_from(p, i + 1, depth + 1, false)
            }
        } else if c == ')' && depth > 0 {
            check_from(p, i + 1, depth - 1, false)
        } else {
            check_from(p, i + 1, depth, false)
        }
    }
}

/// Checks a whole pattern for well-formedness before any matching is tried:
/// reports an unterminated `[` or `(`, a dangling `\`, or an unsupported
/// construct; `None` means the pattern can be matched against.
pub fn check_pattern(p: &Vec<char>) -> (r: Option<MatchError>)
    ensures
        r == spec_check_pattern(p@),
{
    check_from(p, 0, 0, false)
}

} // verus!
