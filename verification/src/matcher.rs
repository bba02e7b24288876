//! The public entry point: does a pattern match anywhere in one line?

use vstd::prelude::*;
use crate::engine::match_pattern;
use crate::engine::spec_step;
use crate::errors::MatchError;
use crate::parse::check_pattern;
use crate::parse::spec_check_pattern;
use crate::util::store_view;

verus! {

/// The recursion budget granted to one match attempt: ample for any
/// terminating attempt on inputs of these lengths, and capped so that a
/// pathological pattern (a backreference whose capture splices further
/// backreferences without end) is reported as `OutOfFuel` instead of
/// running forever.
pub open spec fn spec_fuel_for(p: nat, s: nat) -> nat {
    if p >= 0x1_0000_0000 || s >= 0x1_0000_0000 {
        0xffff_ffff_ffff_ffff as nat
    } else if (p + 2) * (s + 2) + 16 >= 0xffff_ffff_ffff_ffff {
        0xffff_ffff_ffff_ffff as nat
    } else {
        ((p + 2) * (s + 2) + 16) as nat
    }
}

fn fuel_for(p: usize, s: usize) -> (r: u64)
    ensures
        r as nat == spec_fuel_for(p as nat, s as nat),
{
    if p as u64 >= 0x1_0000_0000 || s as u64 >= 0x1_0000_0000 {
        return 0xffff_ffff_ffff_ffff;
    }
    let pp: u128 = p as u128 + 2;
    let ss: u128 = s as u128 + 2;
    proof {
        assert(pp * ss < 0x4_0000_0000_0000_0000u128) by (nonlinear_arith)
            requires
                pp <= 0x1_0000_0001u128,
                ss <= 0x1_0000_0001u128,
        ;
    }
    let prod: u128 = pp * ss + 16;
    if prod >= 0xffff_ffff_ffff_ffff {
        0xffff_ffff_ffff_ffff
    } else {
        prod as u64
    }
}

/// The outcome of one whole match attempt: `Ok(true)` when the pattern
/// matches somewhere in the subject, `Ok(false)` when it does not, and an
/// error for a malformed or unsupported pattern, or for an attempt whose
/// recursion budget ran out.
pub open spec fn spec_matches(pattern: Seq<char>, subject: Seq<char>) -> Result<bool, MatchError> {
    match spec_check_pattern(pattern) {
        Some(e) => Err(e),
        None => match spec_step(
            spec_fuel_for(pattern.len(), subject.len()),
            subject,
            pattern,
            false,
            Seq::empty(),
            None,
        ) {
            Ok(o) => Ok(o.matched),
            Err(e) => Err(e),
        },
    }
}

/// Decides whether the pattern matches somewhere in the subject line.
///
/// The pattern is checked for well-formedness first; matching then starts
/// with a fresh capture store and the free choice of start position still
/// open.  The result is a function of the two character sequences alone:
/// neither argument is changed, and two calls on the same inputs return the
/// same answer.
pub fn matches(pattern: &Vec<char>, subject: &Vec<char>) -> (r: Result<bool, MatchError>)
    ensures
        r == spec_matches(pattern@, subject@),
{
    match check_pattern(pattern) {
        Some(e) => Err(e),
        None => {
            let fuel = fuel_for(pattern.len(), subject.len());
            let refs: Vec<Vec<char>> = Vec::new();
            proof {
                assert(store_view(refs@) =~= Seq::<Seq<char>>::empty());
            }
            match match_pattern(fuel, subject, pattern, false, &refs, None) {
                Ok(o) => Ok(o.matched),
                Err(e) => Err(e),
            }
        },
    }
}

/// Matching is a pure function of the pattern and subject texts: any two
/// attempts on the same pair yield the same outcome.
pub proof fn lemma_matches_deterministic(
    pattern: Seq<char>,
    subject: Seq<char>,
    r1: Result<bool, MatchError>,
    r2: Result<bool, MatchError>,
)
    requires
        r1 == spec_matches(pattern, subject),
        r2 == spec_matches(pattern, subject),
    ensures
        r1 == r2,
{
}

/// An empty subject is matched only by the end anchor standing alone: if a
/// pattern matches the empty subject, that pattern is `$`.
pub proof fn lemma_empty_subject(pattern: Seq<char>)
    ensures
        spec_matches(pattern, Seq::empty()) == Ok::<bool, MatchError>(true) ==> pattern.len() == 1
            && pattern[0] == '$',
{
    assert(spec_fuel_for(pattern.len(), 0) > 0);
}

/// An empty pattern matches any nonempty subject at once: there is nothing
/// left to require.
pub proof fn lemma_empty_pattern(subject: Seq<char>)
    requires
        subject.len() > 0,
    ensures
        spec_matches(Seq::empty(), subject) == Ok::<bool, MatchError>(true),
{
    assert(spec_fuel_for(0, subject.len()) > 0);
}

} // verus!
