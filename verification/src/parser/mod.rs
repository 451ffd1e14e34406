//! From script text to the abstract syntax tree.

pub mod ast;
pub mod errors;
pub mod grammar;
pub mod helpers;
pub mod numeral;
pub mod parser;
pub mod tokenise;
