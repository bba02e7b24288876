//! A single-line regular-expression matching engine.
//!
//! Given a pattern and one line of text, [`matcher::matches`] decides whether
//! the pattern matches somewhere in the line.  The engine is a direct
//! interpretive backtracker: anchors (`^`, `$`), the classes `\d`, `\s`, `\w`
//! and `.`, bracket classes `[abc]` / `[^abc]`, grouping with alternation
//! `(a|b)`, backreferences `\1`..`\9`, and the quantifiers `+` and `?` on a
//! single atom.  Malformed or unsupported patterns are reported as errors,
//! never as a silent non-match.

pub mod conditions;
pub mod engine;
pub mod errors;
pub mod matcher;
pub mod parse;
pub mod util;

pub use conditions::Cond;
pub use conditions::match_next;
pub use engine::match_pattern;
pub use errors::MatchError;
