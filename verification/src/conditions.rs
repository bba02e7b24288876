//! Acceptance conditions: the tests one subject character is held against.

use vstd::prelude::*;

verus! {

/// One acceptance condition for a single subject character: a literal
/// character or one of the fixed symbolic classes.
#[derive(Clone, Copy, PartialEq, Eq, Debug)]
pub enum Cond {
    /// `\d`: a decimal digit.
    Digit,
    /// `\s`: a whitespace character.
    Space,
    /// `\w`: a letter or digit.
    Word,
    /// `.`: any character at all.
    Wildcard,
    /// A character the subject character must equal exactly.
    Literal(char),
}

/// A decimal digit, `0` through `9`.
pub open spec fn spec_is_digit(c: char) -> bool {
    48 <= c as u32 <= 57
}

/// What `char::is_whitespace` returns; a fixed property of the character.
pub uninterp spec fn char_space(c: char) -> bool;

/// What `char::is_alphanumeric` returns; a fixed property of the character.
pub uninterp spec fn char_word(c: char) -> bool;

/// Relies on `char::is_whitespace`: whether the character has the Unicode
/// `White_Space` property.  The result depends on the character alone.
#[verifier::external_body]
fn is_space_char(c: char) -> (r: bool)
    ensures
        r == char_space(c),
{
    c.is_whitespace()
}

/// Relies on `char::is_alphanumeric`: whether the character is a Unicode
/// letter or number.  The result depends on the character alone.
#[verifier::external_body]
fn is_word_char(c: char) -> (r: bool)
    ensures
        r == char_word(c),
{
    c.is_alphanumeric()
}

fn is_digit_char(c: char) -> (r: bool)
    ensures
        r == spec_is_digit(c),
{
    let u = c as u32;
    48 <= u && u <= 57
}

/// Whether one subject character satisfies one condition.
pub open spec fn cond_sat(c: char, cond: Cond) -> bool {
    match cond {
        Cond::Digit => spec_is_digit(c),
        Cond::Space => char_space(c),
        Cond::Word => char_word(c),
        Cond::Wildcard => true,
        Cond::Literal(l) => c == l,
    }
}

/// Whether a character satisfies at least one condition in the set.
pub open spec fn any_cond_sat(c: char, conds: Seq<Cond>) -> bool {
    exists|i: int| 0 <= i < conds.len() && cond_sat(c, #[trigger] conds[i])
}

/// Tests one subject character against an acceptance set: true iff at least
/// one condition in the set accepts it.
pub fn match_next(next_char: char, conditions: &Vec<Cond>) -> (r: bool)
    ensures
        r == any_cond_sat(next_char, conditions@),
{
    let mut i: usize = 0;
    while i < conditions.len()
        invariant
            0 <= i <= conditions@.len(),
            forall|j: int| 0 <= j < i ==> !cond_sat(next_char, #[trigger] conditions@[j]),
        decreases conditions@.len() - i,
    {
        let sat = match conditions[i] {
            Cond::Digit => is_digit_char(next_char),
            Cond::Space => is_space_char(next_char),
            Cond::Word => is_word_char(next_char),
            Cond::Wildcard => true,
            Cond::Literal(l) => next_char == l,
        };
        if sat {
            return true;
        }
        i += 1;
    }
    false
}

/// The condition an escaped character `\c` stands for: `d`, `s`, `w` are the
/// symbolic classes; any other escaped character stands for itself, literally.
pub open spec fn spec_escape_cond(c: char) -> Cond {
    if c == 'd' {
        Cond::Digit
    } else if c == 's' {
        Cond::Space
    } else if c == 'w' {
        Cond::Word
    } else {
        Cond::Literal(c)
    }
}

pub fn escape_cond(c: char) -> (r: Cond)
    ensures
        r == spec_escape_cond(c),
{
    if c == 'd' {
        Cond::Digit
    } else if c == 's' {
        Cond::Space
    } else if c == 'w' {
        Cond::Word
    } else {
        Cond::Literal(c)
    }
}

/// The condition a plain (unescaped) pattern character stands for: `.` is
/// the wildcard; anything else must be matched exactly.
pub open spec fn spec_plain_cond(c: char) -> Cond {
    if c == '.' {
        Cond::Wildcard
    } else {
        Cond::Literal(c)
    }
}

pub fn plain_cond(c: char) -> (r: Cond)
    ensures
        r == spec_plain_cond(c),
{
    if c == '.' {
        Cond::Wildcard
    } else {
        Cond::Literal(c)
    }
}

} // verus!
