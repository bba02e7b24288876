//! The ways a match attempt can fail to be carried out at all.

use vstd::prelude::*;

verus! {

/// Why a match attempt could not be carried out: the pattern is malformed or
/// uses an unsupported construct, or the engine's recursion budget ran out.
#[derive(Clone, Copy, PartialEq, Eq, Debug)]
pub enum MatchError {
    /// A `[` with no closing `]`.
    UnterminatedBracket,
    /// A `(` with no closing `)`.
    UnterminatedGroup,
    /// A `\` with nothing after it.
    DanglingEscape,
    /// A construct the engine does not interpret: bounded repetition `{`,
    /// or a group starting with `(?`.
    UnsupportedConstruct,
    /// The recursion budget was exhausted before the attempt finished.
    OutOfFuel,
}

} // verus!
