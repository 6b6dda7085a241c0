//! Front end of a meta-grammar compiler: parses a textual description of a
//! PEG-style grammar into a tree of non-terminal definitions.
//!
//! The input is a stream of [`token::Token`]s produced by an external lexer;
//! the output is a [`tree::ParseTree`], or a [`tree::ParseError`] carrying a
//! position. The parser is a backtracking recursive descent over the token
//! stream; its whole behaviour, including every error, is pinned down by the
//! specification-level parser in [`model`].

pub mod token;
pub mod tree;
pub mod model;
pub mod parser;
pub mod laws;
