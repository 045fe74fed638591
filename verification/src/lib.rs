//! A lexical scanner for a small C-like scripting language.
//!
//! The scanner turns source text into an ordered sequence of classified
//! tokens, tracking the line each token starts on and keeping the exact
//! source substring (lexeme) of string, number and comment tokens.  A
//! multi-token lookahead buffer underneath lets the lexical rules peek
//! arbitrarily far ahead without losing characters.
//!
//! The lexical rules themselves are stated once, as specification functions
//! in [`rules`], and the executable scanner is proved to produce exactly the
//! token sequence those rules describe.

pub mod laws;
pub mod multipeek;
pub mod rules;
pub mod scanner;
pub mod token;

pub use multipeek::MultiPeek;
pub use multipeek::multipeek;
pub use scanner::Scanner;
pub use token::ErrorModel;
pub use token::Token;
pub use token::TokenModel;
pub use token::TokenizationError;
