//! Front end of a small indentation-sensitive language: a lexer that turns
//! source text into tokens (synthesizing `Indent`/`Dedent` from 4-space
//! units), a recursive-descent parser that builds an abstract syntax tree,
//! and a reporter that renders failures against the source text.
//!
//! Every lexing and parsing function is specified against a functional model
//! (`spec` functions over sequences of characters and tokens); the executable
//! code is proved to return exactly what the model says.

pub mod text;
pub mod ast;
pub mod lexer;
pub mod parser;
pub mod reporter;
pub mod token;
pub mod tokenizer;
