//! A lexical analyzer for a small C-like toy language.
//!
//! The scanner walks an input string one character at a time and hands out
//! classified tokens: operators, delimiters, parentheses, integer literals,
//! identifiers and a fixed set of reserved words.  End of input and
//! unrecognized characters are reported in-band as `EOF` and `Illegal`
//! tokens; no call ever panics.

pub mod laws;
pub mod lexer;
pub mod token;

pub use lexer::new;
pub use lexer::tokenize;
pub use lexer::Lexer;

pub use token::get_token_type;
pub use token::Delimiter;
pub use token::KeyWord;
pub use token::Operator;
pub use token::Paren;
pub use token::Special;
pub use token::Token;
pub use token::TokenType;
pub use token::Value;
