//! A document database's query core: storage keys, and the query language
//! (lexer, parser, values, evaluation and execution), each verified.
use vstd::prelude::*;

pub mod ast;
pub mod eval;
pub mod exec;
pub mod id;
pub mod keys;
pub mod lexer;
pub mod names;
pub mod number;
pub mod parser;
pub mod token;
pub mod value;

pub use id::now_millis;
pub use keys::{KeyError, collection_prefix, decode, encode};
pub use lexer::{LexError, Lexer, tokenize};
pub use token::{Keyword, Token};

verus! {

} // verus!
