//! Capture lists for closures, verified.
//!
//! A capture list names, before a closure, how each variable reaches it:
//! `move x`, `move mut x`, `ref x`, `ref mut x`, or `method [mut] x` for a
//! value transformed by a method without arguments, such as `clone`. A
//! dotted path `a.b.c` may stand for `x`; the binding then takes its last
//! name. [`closure`] expands the text of a capture list and its closure
//! into a block that holds one `let` binding per capture and ends in the
//! closure made `move`; [`expand`] does the same on tokens.

pub mod expand;
pub mod heads;
pub mod laws;
pub mod lexer;
pub mod render;
pub mod token;

pub use expand::{binding_tokens, expand, parse_capture, parse_captures, Capture, ExpandError, Mode};
pub use heads::{decimal_string, head_message, next_step, HeadEvent, HeadStep};
pub use lexer::tokenize;
pub use render::{closure, render_tokens};
pub use token::{Keyword, Token, TokenKind};
