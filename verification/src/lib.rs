pub mod lexer;
pub mod token;

pub use crate::lexer::Lexer;
pub use crate::token::Token;
pub use crate::token::TokenContext;
pub use crate::token::TokenKind;
