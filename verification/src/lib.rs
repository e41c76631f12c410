//! A small embeddable scripting-language front end: a tokenizer and a
//! recursive token-stream evaluator for a prefix-notation expression
//! language, together with the tagged value model and the persistent
//! cons-list that the evaluator depends on.
//!
//! Numerals are kept symbolic: a number value is the arithmetic
//! expression built from the numeral spellings that produced it, folded
//! left to right.  A host that wants a machine number evaluates that
//! expression in its own numeric type; the order of operations is fixed
//! here, so the host's fold is a plain structural walk.
//!
//! Every fallible operation reports failure as a value carrying the
//! reason and the source position of the token that was active when the
//! condition was detected; nothing here panics or aborts.

pub mod eval;
pub mod func;
pub mod lex;
pub mod list;
pub mod num;
mod text;
pub mod vm;

pub use eval::eval_all_tokens;
pub use eval::exec_all_tokens;
pub use func::populate_vm;
pub use func::print;
pub use func::Function;
pub use func::NativeFn;
pub use lex::is_identifier_char;
pub use lex::tokenize;
pub use lex::Operator;
pub use lex::Token;
pub use lex::TokenType;
pub use list::List;
pub use num::NumExpr;
pub use vm::ErrorKind;
pub use vm::VMState;
pub use vm::VMValue;
pub use vm::VmError;
