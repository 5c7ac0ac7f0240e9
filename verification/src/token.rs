use vstd::prelude::*;
use vstd::std_specs::cmp::PartialEqSpecImpl;

use crate::position::{TextPosition, TokenPosition};

verus! {

/// The reserved words of the language.
#[derive(Debug, Clone, Copy, PartialEq, Eq, Structural)]
pub enum Keyword {
    U8,
    I8,
    U16,
    I16,
    Fn,
    SizeOf,
    Type,
    Const,
    Var,
    If,
    Else,
    While,
    For,
    Switch,
    Case,
    Default,
    Break,
    Continue,
    Return,
    Extern,
    Struct,
    Union,
    Enum,
}

/// The notation an integer literal was written in.
#[derive(Debug, Clone, Copy, PartialEq, Eq, Structural)]
pub enum IntegerLiteralKind {
    Decimal,
    Hexadecimal,
    Binary,
}

/// What a token is. Identifiers and string literals own their text.
#[derive(Debug)]
pub enum TokenKind {
    Keyword(Keyword),
    Identifier(String),
    IntegerLiteral(IntegerLiteralKind, u16),
    CharLiteral(char),
    StringLiteral(String),
    LeftBracket,
    RightBracket,
    LeftParenthesis,
    RightParenthesis,
    LeftBrace,
    RightBrace,
    LeftChevron,
    RightChevron,
    Colon,
    SemiColon,
    Comma,
    Plus,
    Minus,
    Bang,
    Ampersand,
    DoubleAmpersand,
    Bar,
    DoubleBar,
    Caret,
    Equal,
    DoubleEqual,
    BangEqual,
    LessThan,
    LessThanEqual,
    GreaterThan,
    GreaterThanEqual,
    PlusEqual,
    MinusEqual,
    AsteriskEqual,
    ForwardSlashEqual,
    PercentEqual,
    LeftChevronEqual,
    RightChevronEqual,
    AmpersandEqual,
    BarEqual,
    CaretEqual,
    Asterisk,
    ForwardSlash,
    Percent,
    Dot,
    Whitespace(usize),
    EOF,
    Illegal,
}

/// The mathematical value of a [`TokenKind`]: owned text becomes a sequence
/// of characters, and a kind that carries nothing stands for itself.
pub enum KindView {
    Keyword(Keyword),
    Identifier(Seq<char>),
    IntegerLiteral(IntegerLiteralKind, u16),
    CharLiteral(char),
    StringLiteral(Seq<char>),
    Whitespace(usize),
    Plain(TokenKind),
}

impl TokenKind {
    /// The kind carries no payload: punctuation, operators, end of input and
    /// the illegal marker.
    pub open spec fn is_plain(self) -> bool {
        match self {
            TokenKind::Keyword(_) => false,
            TokenKind::Identifier(_) => false,
            TokenKind::IntegerLiteral(_, _) => false,
            TokenKind::CharLiteral(_) => false,
            TokenKind::StringLiteral(_) => false,
            TokenKind::Whitespace(_) => false,
            _ => true,
        }
    }
}

impl View for TokenKind {
    type V = KindView;

    open spec fn view(&self) -> KindView {
        match *self {
            TokenKind::Keyword(keyword) => KindView::Keyword(keyword),
            TokenKind::Identifier(text) => KindView::Identifier(text@),
            TokenKind::IntegerLiteral(kind, value) => KindView::IntegerLiteral(kind, value),
            TokenKind::CharLiteral(c) => KindView::CharLiteral(c),
            TokenKind::StringLiteral(text) => KindView::StringLiteral(text@),
            TokenKind::Whitespace(breaks) => KindView::Whitespace(breaks),
            plain => KindView::Plain(plain),
        }
    }
}

impl Clone for TokenKind {
    fn clone(&self) -> (copy: TokenKind)
        ensures
            copy@ == self@,
    {
        match self {
            TokenKind::Keyword(keyword) => TokenKind::Keyword(*keyword),
            TokenKind::Identifier(text) => TokenKind::Identifier(text.clone()),
            TokenKind::IntegerLiteral(kind, value) => TokenKind::IntegerLiteral(*kind, *value),
            TokenKind::CharLiteral(c) => TokenKind::CharLiteral(*c),
            TokenKind::StringLiteral(text) => TokenKind::StringLiteral(text.clone()),
            TokenKind::Whitespace(breaks) => TokenKind::Whitespace(*breaks),
            TokenKind::LeftBracket => TokenKind::LeftBracket,
            TokenKind::RightBracket => TokenKind::RightBracket,
            TokenKind::LeftParenthesis => TokenKind::LeftParenthesis,
            TokenKind::RightParenthesis => TokenKind::RightParenthesis,
            TokenKind::LeftBrace => TokenKind::LeftBrace,
            TokenKind::RightBrace => TokenKind::RightBrace,
            TokenKind::LeftChevron => TokenKind::LeftChevron,
            TokenKind::RightChevron => TokenKind::RightChevron,
            TokenKind::Colon => TokenKind::Colon,
            TokenKind::SemiColon => TokenKind::SemiColon,
            TokenKind::Comma => TokenKind::Comma,
            TokenKind::Plus => TokenKind::Plus,
            TokenKind::Minus => TokenKind::Minus,
            TokenKind::Bang => TokenKind::Bang,
            TokenKind::Ampersand => TokenKind::Ampersand,
            TokenKind::DoubleAmpersand => TokenKind::DoubleAmpersand,
            TokenKind::Bar => TokenKind::Bar,
            TokenKind::DoubleBar => TokenKind::DoubleBar,
            TokenKind::Caret => TokenKind::Caret,
            TokenKind::Equal => TokenKind::Equal,
            TokenKind::DoubleEqual => TokenKind::DoubleEqual,
            TokenKind::BangEqual => TokenKind::BangEqual,
            TokenKind::LessThan => TokenKind::LessThan,
            TokenKind::LessThanEqual => TokenKind::LessThanEqual,
            TokenKind::GreaterThan => TokenKind::GreaterThan,
            TokenKind::GreaterThanEqual => TokenKind::GreaterThanEqual,
            TokenKind::PlusEqual => TokenKind::PlusEqual,
            TokenKind::MinusEqual => TokenKind::MinusEqual,
            TokenKind::AsteriskEqual => TokenKind::AsteriskEqual,
            TokenKind::ForwardSlashEqual => TokenKind::ForwardSlashEqual,
            TokenKind::PercentEqual => TokenKind::PercentEqual,
            TokenKind::LeftChevronEqual => TokenKind::LeftChevronEqual,
            TokenKind::RightChevronEqual => TokenKind::RightChevronEqual,
            TokenKind::AmpersandEqual => TokenKind::AmpersandEqual,
            TokenKind::BarEqual => TokenKind::BarEqual,
            TokenKind::CaretEqual => TokenKind::CaretEqual,
            TokenKind::Asterisk => TokenKind::Asterisk,
            TokenKind::ForwardSlash => TokenKind::ForwardSlash,
            TokenKind::Percent => TokenKind::Percent,
            TokenKind::Dot => TokenKind::Dot,
            TokenKind::EOF => TokenKind::EOF,
            TokenKind::Illegal => TokenKind::Illegal,
        }
    }
}

impl PartialEq for TokenKind {
    fn eq(&self, other: &TokenKind) -> (equal: bool) {
        match (self, other) {
            (TokenKind::Keyword(a), TokenKind::Keyword(b)) => *a == *b,
            (TokenKind::Identifier(a), TokenKind::Identifier(b)) => *a == *b,
            (TokenKind::IntegerLiteral(ka, va), TokenKind::IntegerLiteral(kb, vb)) => *ka == *kb
                && *va == *vb,
            (TokenKind::CharLiteral(a), TokenKind::CharLiteral(b)) => *a == *b,
            (TokenKind::StringLiteral(a), TokenKind::StringLiteral(b)) => *a == *b,
            (TokenKind::Whitespace(a), TokenKind::Whitespace(b)) => *a == *b,
            (TokenKind::LeftBracket, TokenKind::LeftBracket) => true,
            (TokenKind::RightBracket, TokenKind::RightBracket) => true,
            (TokenKind::LeftParenthesis, TokenKind::LeftParenthesis) => true,
            (TokenKind::RightParenthesis, TokenKind::RightParenthesis) => true,
            (TokenKind::LeftBrace, TokenKind::LeftBrace) => true,
            (TokenKind::RightBrace, TokenKind::RightBrace) => true,
            (TokenKind::LeftChevron, TokenKind::LeftChevron) => true,
            (TokenKind::RightChevron, TokenKind::RightChevron) => true,
            (TokenKind::Colon, TokenKind::Colon) => true,
            (TokenKind::SemiColon, TokenKind::SemiColon) => true,
            (TokenKind::Comma, TokenKind::Comma) => true,
            (TokenKind::Plus, TokenKind::Plus) => true,
            (TokenKind::Minus, TokenKind::Minus) => true,
            (TokenKind::Bang, TokenKind::Bang) => true,
            (TokenKind::Ampersand, TokenKind::Ampersand) => true,
            (TokenKind::DoubleAmpersand, TokenKind::DoubleAmpersand) => true,
            (TokenKind::Bar, TokenKind::Bar) => true,
            (TokenKind::DoubleBar, TokenKind::DoubleBar) => true,
            (TokenKind::Caret, TokenKind::Caret) => true,
            (TokenKind::Equal, TokenKind::Equal) => true,
            (TokenKind::DoubleEqual, TokenKind::DoubleEqual) => true,
            (TokenKind::BangEqual, TokenKind::BangEqual) => true,
            (TokenKind::LessThan, TokenKind::LessThan) => true,
            (TokenKind::LessThanEqual, TokenKind::LessThanEqual) => true,
            (TokenKind::GreaterThan, TokenKind::GreaterThan) => true,
            (TokenKind::GreaterThanEqual, TokenKind::GreaterThanEqual) => true,
            (TokenKind::PlusEqual, TokenKind::PlusEqual) => true,
            (TokenKind::MinusEqual, TokenKind::MinusEqual) => true,
            (TokenKind::AsteriskEqual, TokenKind::AsteriskEqual) => true,
            (TokenKind::ForwardSlashEqual, TokenKind::ForwardSlashEqual) => true,
            (TokenKind::PercentEqual, TokenKind::PercentEqual) => true,
            (TokenKind::LeftChevronEqual, TokenKind::LeftChevronEqual) => true,
            (TokenKind::RightChevronEqual, TokenKind::RightChevronEqual) => true,
            (TokenKind::AmpersandEqual, TokenKind::AmpersandEqual) => true,
            (TokenKind::BarEqual, TokenKind::BarEqual) => true,
            (TokenKind::CaretEqual, TokenKind::CaretEqual) => true,
            (TokenKind::Asterisk, TokenKind::Asterisk) => true,
            (TokenKind::ForwardSlash, TokenKind::ForwardSlash) => true,
            (TokenKind::Percent, TokenKind::Percent) => true,
            (TokenKind::Dot, TokenKind::Dot) => true,
            (TokenKind::EOF, TokenKind::EOF) => true,
            (TokenKind::Illegal, TokenKind::Illegal) => true,
            _ => false,
        }
    }
}

impl PartialEqSpecImpl for TokenKind {
    open spec fn obeys_eq_spec() -> bool {
        true
    }

    open spec fn eq_spec(&self, other: &TokenKind) -> bool {
        self@ == other@
    }
}

/// A classified lexeme together with its span in the source text.
#[derive(Debug)]
pub struct Token {
    pub kind: TokenKind,
    pub position: TokenPosition,
}

/// The mathematical value of a [`Token`].
pub struct TokenView {
    pub kind: KindView,
    pub position: TokenPosition,
}

impl View for Token {
    type V = TokenView;

    open spec fn view(&self) -> TokenView {
        TokenView { kind: self.kind@, position: self.position }
    }
}

impl Clone for Token {
    fn clone(&self) -> (copy: Token)
        ensures
            copy@ == self@,
    {
        Token { kind: self.kind.clone(), position: self.position }
    }
}

impl PartialEq for Token {
    fn eq(&self, other: &Token) -> (equal: bool) {
        self.kind == other.kind && self.position == other.position
    }
}

impl PartialEqSpecImpl for Token {
    open spec fn obeys_eq_spec() -> bool {
        true
    }

    open spec fn eq_spec(&self, other: &Token) -> bool {
        self@ == other@
    }
}

impl Default for Token {
    /// The illegal token, placed at the start of the text.
    fn default() -> (token: Token)
        ensures
            token@ == (TokenView {
                kind: KindView::Plain(TokenKind::Illegal),
                position: empty_span(),
            }),
    {
        Token::from_kind(TokenKind::Illegal)
    }
}

impl Token {
    /// The token of the given kind at `position`.
    pub fn new(kind: TokenKind, position: TokenPosition) -> (token: Token)
        ensures
            token == (Token { kind, position }),
    {
        Token { kind, position }
    }

    /// The token of the reserved word `key` at `position`.
    pub fn keyword(key: Keyword, position: TokenPosition) -> (token: Token)
        ensures
            token == (Token { kind: TokenKind::Keyword(key), position }),
    {
        Token { kind: TokenKind::Keyword(key), position }
    }

    /// A token of the given kind that belongs to no place in a text: its
    /// span is empty and lies at the start.
    pub fn from_kind(kind: TokenKind) -> (token: Token)
        ensures
            token == (Token { kind, position: empty_span() }),
    {
        let start = TextPosition { absolute: 0, line: 0, column: 0 };
        Token { kind, position: TokenPosition { start, end: start } }
    }

    /// One placeless token for each of `kinds`, in the same order.
    pub fn from_kinds(kinds: &Vec<TokenKind>) -> (tokens: Vec<Token>)
        ensures
            tokens@.len() == kinds@.len(),
            forall|i: int|
                0 <= i < kinds@.len() ==> #[trigger] tokens@[i]@ == (TokenView {
                    kind: kinds@[i]@,
                    position: empty_span(),
                }),
    {
        let mut tokens: Vec<Token> = Vec::new();
        let mut i: usize = 0;
        while i < kinds.len()
            invariant
                i <= kinds@.len(),
                tokens@.len() == i,
                forall|j: int|
                    0 <= j < i ==> #[trigger] tokens@[j]@ == (TokenView {
                        kind: kinds@[j]@,
                        position: empty_span(),
                    }),
            decreases kinds@.len() - i,
        {
            tokens.push(Token::from_kind(kinds[i].clone()));
            i += 1;
        }
        tokens
    }
}

/// The span that starts and ends at the start of the text.
pub open spec fn empty_span() -> TokenPosition {
    TokenPosition {
        start: TextPosition { absolute: 0, line: 0, column: 0 },
        end: TextPosition { absolute: 0, line: 0, column: 0 },
    }
}

/// The views of a sequence of tokens, one by one.
pub open spec fn views(tokens: Seq<Token>) -> Seq<TokenView> {
    tokens.map_values(|token: Token| token@)
}

} // verus!
