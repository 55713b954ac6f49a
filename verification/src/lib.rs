//! A small Lisp-like language front end: a tokenizer, a recursive-descent
//! parser producing an untyped S-expression tree, and a semantic resolver
//! that lowers that tree into a typed intermediate representation while
//! expanding special forms and checking types.

pub mod interpreter;
pub mod lexer;
pub mod parser;
pub mod tokens;
