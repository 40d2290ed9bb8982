//! Front end and evaluator of a small scripting language whose symbols are emoji.
//!
//! Source text is split into grapheme clusters (`glyph` says which cluster
//! is which symbol) and scanned into tokens (`token`, `lexer`); the tokens
//! are parsed by precedence climbing into a tree (`ast`, `parser`), and the
//! tree is evaluated against a chain of scopes (`object`, `evaluator`).
//! Doubles are held as their IEEE 754 bits and computed on by `double`;
//! `util` holds the cursor over a vector that the lexer and parser walk.
//!
//! Each stage has its meaning as spec functions (`lexer::scan`,
//! `parser::p_program`, `evaluator::eval_prog`) that the executable code is
//! proved to follow.
use vstd::prelude::*;

pub mod util;
pub mod token;
pub mod glyph;
pub mod lexer;
pub mod ast;
pub mod double;
pub mod parser;
pub mod object;
pub mod evaluator;

verus! {

} // verus!
