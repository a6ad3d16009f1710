//! Front end for the FTL language: a tokenizer, a recursive-descent parser
//! that builds the syntax tree, and an emitter that renders the tree back
//! to source text.
//!
//! - `lexer` reads a text into positioned tokens; its result is pinned down
//!   by `lex_spans`, the longest-match reading of the text.
//! - `grammar` states, as relations between tokens and trees, what the
//!   parser reads; `parser` reads by recursive descent with one token of
//!   lookahead and precedence climbing for binary operators.
//! - A `,` before the closing `)` of a function's arguments, or the `}` of a
//!   struct's fields, is accepted.
//! - A declaration that fails to parse ends the sequence of declarations.

pub mod ast;
pub mod emitter;
pub mod grammar;
pub mod lexer;
pub mod parser;
pub mod position;
pub mod token;
