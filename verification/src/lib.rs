pub mod ast;
pub mod compiler;
pub mod cursor;
pub mod grammar;
pub mod lexeme;
pub mod lexer;
pub mod parser;
pub mod position;
pub mod symbol;
pub mod text;
pub mod token;

pub use ast::{
    ConstantVariableDeclaration, EnumDeclaration, Expression, Field, FunctionDeclaration,
    Statement, StructUnionDeclaration, Type, TypeDeclaration,
};
pub use compiler::{parse, tokenize, CompilerError, CompilerResult};
pub use cursor::TokenInput;
pub use grammar::ParseErrorKind;
pub use lexer::{LexError, LexErrorKind, LexResult, Lexer};
pub use parser::{ParseError, ParseResult, Parser};
pub use position::{TextPosition, TokenPosition};
pub use token::{IntegerLiteralKind, Keyword, Token, TokenKind};
