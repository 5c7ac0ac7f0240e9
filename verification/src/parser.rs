use vstd::prelude::*;

use crate::ast::{
    field_views, ConstantVariableDeclaration, EnumDeclaration, Expression, Field,
    FunctionDeclaration, Statement, StructUnionDeclaration, Type, TypeDeclaration,
};
use crate::cursor::{CursorView, TokenInput};
use crate::grammar::{
    fault_message, fault_place, lemma_skip_blank, skip_blank, spec_const_or_var,
    spec_declaration, spec_expression, spec_field, spec_fields, spec_identifier, spec_keyword,
    spec_keyword_with_identifier, spec_more_fields, spec_struct_or_union, spec_token, spec_type,
    spec_type_decl, spec_unimplemented, spec_whitespace, ParseErrorKind, Parsed,
};
use crate::position::{TextPosition, TokenPosition};
use crate::token::{views, Keyword, Token, TokenKind};

verus! {

/// An error of the parser: its kind, a message for the reader, and the
/// place in the text that it is about.
#[derive(Debug, PartialEq)]
pub struct ParseError {
    pub kind: ParseErrorKind,
    pub msg: String,
    pub position: TextPosition,
}

/// What a parsing function hands out: the value it read with the span of
/// the last token it read, or an error.
pub type ParseResult<T> = Result<(T, TokenPosition), ParseError>;

/// What the rule of a declaration hands out.
#[derive(Debug)]
pub enum Attempt<T> {
    /// The declaration, and the span of its last token.
    Parsed(T, TokenPosition),
    /// The tokens at hand do not start this kind of declaration; another
    /// kind may be tried.
    Mismatch(ParseError),
    /// The declaration has started and cannot be completed, or the tokens
    /// have ended.
    Failure(ParseError),
}

/// The reader has moved on to index `next`, its marks are as they were, every
/// checkpoint made on the way has been committed or rolled back, and
/// `position` is the span of the token before `next`.
pub open spec fn advanced(
    before: CursorView,
    after: CursorView,
    position: TokenPosition,
    next: int,
) -> bool {
    &&& after.agrees(before.at(next))
    &&& before.balanced(after)
    &&& 0 <= before.index < next <= before.tokens.len()
    &&& position == before.tokens[next - 1].position
}

/// The reader is where it was, its marks are as they were, every checkpoint
/// made on the way has been committed or rolled back, and `error` is the
/// error that stands for `parsed`.
pub open spec fn rejected<T>(
    before: CursorView,
    after: CursorView,
    error: ParseError,
    parsed: Parsed<T>,
) -> bool {
    &&& after.agrees(before)
    &&& before.balanced(after)
    &&& error.kind == parsed.kind()
    &&& error.msg@ == fault_message(parsed.kind())
    &&& error.position == fault_place(before.tokens, parsed.at())
}

/// A recursive-descent parser over a vector of tokens.
///
/// The functions that read a single token (`parse_token`, `parse_keyword`,
/// `parse_identifier`, `parse_whitespace`, `parse_type`, `parse_expression`)
/// look at the token at the parser's place and at no other. The rules that
/// are made of several tokens pass over the whitespace before each of them.
pub struct Parser {
    input: TokenInput,
}

impl View for Parser {
    type V = CursorView;

    closed spec fn view(&self) -> CursorView {
        self.input@
    }
}

impl ParseError {
    /// The error that says that the token at the parser's place is not
    /// expected there. It points to the start of that token, or to the end
    /// of the last token where the parser has read them all.
    pub fn unexpected_token(parser: &Parser) -> (error: ParseError)
        requires
            parser.wf(),
        ensures
            error.kind == ParseErrorKind::UnexpectedToken,
            error.msg@ == "Unexpected token"@,
            error.position == fault_place(parser@.tokens, parser@.index),
    {
        ParseError {
            kind: ParseErrorKind::UnexpectedToken,
            msg: String::from_str("Unexpected token"),
            position: parser.fault_position(),
        }
    }

    /// The error of the given kind about the token at the parser's place.
    /// It points to the start of that token, or to the end of the last token
    /// where the parser has read them all.
    pub fn from_kind(parser: &Parser, kind: ParseErrorKind) -> (error: ParseError)
        requires
            parser.wf(),
        ensures
            error.kind == kind,
            error.msg@ == match kind {
                ParseErrorKind::UnexpectedToken => "Parsing error: UnexpectedToken"@,
                ParseErrorKind::UnexpectedEOF => "Parsing error: UnexpectedEOF"@,
            },
            error.position == fault_place(parser@.tokens, parser@.index),
    {
        let msg = match kind {
            ParseErrorKind::UnexpectedToken => String::from_str("Parsing error: UnexpectedToken"),
            ParseErrorKind::UnexpectedEOF => String::from_str("Parsing error: UnexpectedEOF"),
        };
        ParseError { kind, msg, position: parser.fault_position() }
    }
}

impl Parser {
    /// The parser's reader is well formed.
    pub open spec fn wf(&self) -> bool {
        self@.wf()
    }

    /// A parser at the first of `tokens`.
    pub fn new(tokens: Vec<Token>) -> (parser: Parser)
        ensures
            parser.wf(),
            parser@ == (CursorView {
                tokens: views(tokens@),
                index: 0,
                stack: Seq::empty(),
                checkpoints: 0,
                releases: 0,
            }),
    {
        Parser { input: TokenInput::new(tokens) }
    }

    /// The index of the token that is read next.
    pub fn index(&self) -> (index: usize)
        ensures
            index == self@.index,
    {
        self.input.index()
    }

    /// The token that is read next, or `None` where all have been read.
    pub fn current(&self) -> (token: Option<Token>)
        requires
            self.wf(),
        ensures
            match token {
                Some(token) => {
                    &&& self@.index < self@.tokens.len()
                    &&& token@ == self@.tokens[self@.index]
                },
                None => self@.index == self@.tokens.len(),
            },
    {
        self.input.current()
    }

    /// The place that an error about the token at the parser's place points
    /// to.
    fn fault_position(&self) -> (position: TextPosition)
        requires
            self.wf(),
        ensures
            position == fault_place(self@.tokens, self@.index),
    {
        let len = self.input.len();
        let at = self.input.index();
        if at < len {
            self.input.get(at).position.start
        } else if len > 0 {
            self.input.get(len - 1).position.end
        } else {
            TextPosition::origin()
        }
    }

    /// Whether nothing but whitespace is left to read.
    pub fn is_exhausted(&mut self) -> (exhausted: bool)
        requires
            old(self).wf(),
        ensures
            final(self).wf(),
            final(self)@.agrees(old(self)@),
            old(self)@.balanced(final(self)@),
            exhausted == (skip_blank(old(self)@.tokens, old(self)@.index)
                >= old(self)@.tokens.len()),
    {
        self.input.push();
        self.skip_whitespace();
        let next = self.input.next();
        self.input.pop();
        match next {
            None => true,
            Some(_) => false,
        }
    }

    /// Reads whitespace tokens as long as one stands at the parser's
    /// place.
    pub fn skip_whitespace(&mut self)
        requires
            old(self).wf(),
        ensures
            final(self).wf(),
            final(self)@.agrees(old(self)@.at(skip_blank(old(self)@.tokens, old(self)@.index))),
            old(self)@.balanced(final(self)@),
            old(self)@.index <= final(self)@.index <= old(self)@.tokens.len(),
    {
        let mut more = true;
        proof {
            lemma_skip_blank(self@.tokens, self@.index);
        }
        while more
            invariant
                self.wf(),
                self@.tokens == old(self)@.tokens,
                self@.stack == old(self)@.stack,
                old(self)@.balanced(self@),
                old(self)@.index <= self@.index <= skip_blank(old(self)@.tokens, old(self)@.index),
                skip_blank(self@.tokens, self@.index) == skip_blank(
                    old(self)@.tokens,
                    old(self)@.index,
                ),
                !more ==> self@.index == skip_blank(self@.tokens, self@.index),
            decreases self@.tokens.len() - self@.index + if more { 1int } else { 0int },
        {
            proof {
                lemma_skip_blank(self@.tokens, self@.index);
            }
            match self.parse_whitespace() {
                Ok(_) => {},
                Err(_) => {
                    more = false;
                },
            }
        }
    }

    /// Reads the token at the parser's place if it is whitespace, and hands
    /// out its number of line breaks.
    pub fn parse_whitespace(&mut self) -> (result: ParseResult<usize>)
        requires
            old(self).wf(),
        ensures
            final(self).wf(),
            match spec_whitespace(old(self)@.tokens, old(self)@.index) {
                Parsed::Match { value, next } => {
                    &&& result matches Ok((breaks, position))
                    &&& breaks == value
                    &&& advanced(old(self)@, final(self)@, position, next)
                },
                parsed => result matches Err(error) && rejected(
                    old(self)@,
                    final(self)@,
                    error,
                    parsed,
                ),
            },
    {
        self.input.push();
        match self.input.next() {
            Some(token) => match token.kind {
                TokenKind::Whitespace(line_break_count) => {
                    self.input.drop();
                    Ok((line_break_count, token.position))
                },
                _ => {
                    self.input.pop();
                    Err(ParseError::unexpected_token(self))
                },
            },
            None => {
                self.input.pop();
                Err(ParseError::from_kind(self, ParseErrorKind::UnexpectedEOF))
            },
        }
    }
}

impl Parser {
    /// Reads the token at the parser's place if it is of kind `target`.
    /// No other token is looked at: where whitespace stands at the
    /// parser's place, whitespace is what is compared.
    pub fn parse_token(&mut self, target: TokenKind) -> (result: ParseResult<()>)
        requires
            old(self).wf(),
        ensures
            final(self).wf(),
            match spec_token(old(self)@.tokens, old(self)@.index, target@) {
                Parsed::Match { value, next } => {
                    &&& result matches Ok((_, position))
                    &&& advanced(old(self)@, final(self)@, position, next)
                },
                parsed => result matches Err(error) && rejected(
                    old(self)@,
                    final(self)@,
                    error,
                    parsed,
                ),
            },
    {
        self.input.push();
        match self.input.next() {
            Some(token) => {
                if target == token.kind {
                    self.input.drop();
                    Ok(((), token.position))
                } else {
                    self.input.pop();
                    Err(ParseError::unexpected_token(self))
                }
            },
            None => {
                self.input.pop();
                Err(ParseError::from_kind(self, ParseErrorKind::UnexpectedEOF))
            },
        }
    }

    /// Reads the token at the parser's place if it is the reserved word
    /// `target`.
    pub fn parse_keyword(&mut self, target: Keyword) -> (result: ParseResult<()>)
        requires
            old(self).wf(),
        ensures
            final(self).wf(),
            match spec_keyword(old(self)@.tokens, old(self)@.index, target) {
                Parsed::Match { value, next } => {
                    &&& result matches Ok((_, position))
                    &&& advanced(old(self)@, final(self)@, position, next)
                },
                parsed => result matches Err(error) && rejected(
                    old(self)@,
                    final(self)@,
                    error,
                    parsed,
                ),
            },
    {
        self.input.push();
        match self.input.next() {
            Some(token) => {
                let matched = match token.kind {
                    TokenKind::Keyword(keyword) => keyword == target,
                    _ => false,
                };
                if matched {
                    self.input.drop();
                    Ok(((), token.position))
                } else {
                    self.input.pop();
                    Err(ParseError::unexpected_token(self))
                }
            },
            None => {
                self.input.pop();
                Err(ParseError::from_kind(self, ParseErrorKind::UnexpectedEOF))
            },
        }
    }

    /// Reads the token at the parser's place if it is an identifier, and
    /// hands out its text.
    pub fn parse_identifier(&mut self) -> (result: ParseResult<String>)
        requires
            old(self).wf(),
        ensures
            final(self).wf(),
            match spec_identifier(old(self)@.tokens, old(self)@.index) {
                Parsed::Match { value, next } => {
                    &&& result matches Ok((identifier, position))
                    &&& identifier@ == value
                    &&& advanced(old(self)@, final(self)@, position, next)
                },
                parsed => result matches Err(error) && rejected(
                    old(self)@,
                    final(self)@,
                    error,
                    parsed,
                ),
            },
    {
        self.input.push();
        match self.input.next() {
            Some(token) => {
                let position = token.position;
                match token.kind {
                    TokenKind::Identifier(identifier) => {
                        self.input.drop();
                        Ok((identifier, position))
                    },
                    _ => {
                        self.input.pop();
                        Err(ParseError::unexpected_token(self))
                    },
                }
            },
            None => {
                self.input.pop();
                Err(ParseError::from_kind(self, ParseErrorKind::UnexpectedEOF))
            },
        }
    }

    /// Reads the token at the parser's place if it names a type: one of
    /// the reserved words `u8`, `i8`, `u16` and `i16`.
    pub fn parse_type(&mut self) -> (result: ParseResult<Type>)
        requires
            old(self).wf(),
        ensures
            final(self).wf(),
            match spec_type(old(self)@.tokens, old(self)@.index) {
                Parsed::Match { value, next } => {
                    &&& result matches Ok((ty, position))
                    &&& ty == value
                    &&& advanced(old(self)@, final(self)@, position, next)
                },
                parsed => result matches Err(error) && rejected(
                    old(self)@,
                    final(self)@,
                    error,
                    parsed,
                ),
            },
    {
        self.input.push();
        match self.input.next() {
            Some(token) => {
                let scalar = match token.kind {
                    TokenKind::Keyword(Keyword::U8) => Some(Type::U8),
                    TokenKind::Keyword(Keyword::I8) => Some(Type::I8),
                    TokenKind::Keyword(Keyword::U16) => Some(Type::U16),
                    TokenKind::Keyword(Keyword::I16) => Some(Type::I16),
                    _ => None,
                };
                match scalar {
                    Some(ty) => {
                        self.input.drop();
                        Ok((ty, token.position))
                    },
                    None => {
                        self.input.pop();
                        Err(ParseError::unexpected_token(self))
                    },
                }
            },
            None => {
                self.input.pop();
                Err(ParseError::from_kind(self, ParseErrorKind::UnexpectedEOF))
            },
        }
    }

    /// Reads the token at the parser's place if it is an expression: an
    /// integer literal.
    pub fn parse_expression(&mut self) -> (result: ParseResult<Expression>)
        requires
            old(self).wf(),
        ensures
            final(self).wf(),
            match spec_expression(old(self)@.tokens, old(self)@.index) {
                Parsed::Match { value, next } => {
                    &&& result matches Ok((expression, position))
                    &&& expression == value
                    &&& advanced(old(self)@, final(self)@, position, next)
                },
                parsed => result matches Err(error) && rejected(
                    old(self)@,
                    final(self)@,
                    error,
                    parsed,
                ),
            },
    {
        self.input.push();
        match self.input.next() {
            Some(token) => match token.kind {
                TokenKind::IntegerLiteral(kind, value) => {
                    self.input.drop();
                    Ok((Expression::IntegerLiteral(kind, value), token.position))
                },
                _ => {
                    self.input.pop();
                    Err(ParseError::unexpected_token(self))
                },
            },
            None => {
                self.input.pop();
                Err(ParseError::from_kind(self, ParseErrorKind::UnexpectedEOF))
            },
        }
    }

    /// Reads a field: an identifier, `:` and a type, with any whitespace
    /// before each of them.
    pub fn parse_field(&mut self) -> (result: ParseResult<Field>)
        requires
            old(self).wf(),
        ensures
            final(self).wf(),
            match spec_field(old(self)@.tokens, old(self)@.index) {
                Parsed::Match { value, next } => {
                    &&& result matches Ok((field, position))
                    &&& field@ == value
                    &&& advanced(old(self)@, final(self)@, position, next)
                },
                parsed => result matches Err(error) && rejected(
                    old(self)@,
                    final(self)@,
                    error,
                    parsed,
                ),
            },
    {
        self.input.push();
        self.skip_whitespace();
        let identifier = match self.parse_identifier() {
            Err(err) => {
                self.input.pop();
                return Err(err);
            },
            Ok((identifier, _)) => identifier,
        };
        self.skip_whitespace();
        match self.parse_token(TokenKind::Colon) {
            Err(err) => {
                self.input.pop();
                return Err(err);
            },
            Ok(_) => (),
        }
        self.skip_whitespace();
        match self.parse_type() {
            Err(err) => {
                self.input.pop();
                Err(err)
            },
            Ok((field_type, position)) => {
                self.input.drop();
                Ok((Field { identifier, field_type }, position))
            },
        }
    }

    /// Reads the reserved word `target` and an identifier, and hands out
    /// the identifier's text.
    fn parse_keyword_with_identifier(&mut self, target: Keyword) -> (attempt: Attempt<String>)
        requires
            old(self).wf(),
        ensures
            final(self).wf(),
            match spec_keyword_with_identifier(old(self)@.tokens, old(self)@.index, target) {
                Parsed::Match { value, next } => {
                    &&& attempt matches Attempt::Parsed(identifier, position)
                    &&& identifier@ == value
                    &&& advanced(old(self)@, final(self)@, position, next)
                },
                Parsed::Mismatch { at } => attempt matches Attempt::Mismatch(error) && rejected(
                    old(self)@,
                    final(self)@,
                    error,
                    Parsed::<()>::Mismatch { at },
                ),
                Parsed::Failure { kind, at } => attempt matches Attempt::Failure(error) && rejected(
                    old(self)@,
                    final(self)@,
                    error,
                    Parsed::<()>::Failure { kind, at },
                ),
            },
    {
        self.input.push();
        self.skip_whitespace();
        match self.parse_keyword(target) {
            Err(err) => {
                self.input.pop();
                return match err.kind {
                    ParseErrorKind::UnexpectedToken => Attempt::Mismatch(err),
                    ParseErrorKind::UnexpectedEOF => Attempt::Failure(err),
                };
            },
            Ok(_) => (),
        }
        self.skip_whitespace();
        match self.parse_identifier() {
            Err(err) => {
                self.input.pop();
                Attempt::Failure(err)
            },
            Ok((identifier, position)) => {
                self.input.drop();
                Attempt::Parsed(identifier, position)
            },
        }
    }
}

impl Parser {
    /// Reads a constant, or a variable where `is_var` is set: the reserved
    /// word, a field, `=`, an expression and `;`.
    fn parse_const_or_var_decl(&mut self, is_var: bool) -> (attempt: Attempt<
        ConstantVariableDeclaration,
    >)
        requires
            old(self).wf(),
        ensures
            final(self).wf(),
            match spec_const_or_var(old(self)@.tokens, old(self)@.index, is_var) {
                Parsed::Match { value, next } => {
                    &&& attempt matches Attempt::Parsed(declaration, position)
                    &&& declaration@ == value
                    &&& advanced(old(self)@, final(self)@, position, next)
                },
                Parsed::Mismatch { at } => attempt matches Attempt::Mismatch(error) && rejected(
                    old(self)@,
                    final(self)@,
                    error,
                    Parsed::<()>::Mismatch { at },
                ),
                Parsed::Failure { kind, at } => attempt matches Attempt::Failure(error) && rejected(
                    old(self)@,
                    final(self)@,
                    error,
                    Parsed::<()>::Failure { kind, at },
                ),
            },
    {
        let keyword = if is_var {
            Keyword::Var
        } else {
            Keyword::Const
        };
        self.input.push();

        // "const" / "var"
        self.skip_whitespace();
        match self.parse_keyword(keyword) {
            Err(err) => {
                self.input.pop();
                return match err.kind {
                    ParseErrorKind::UnexpectedToken => Attempt::Mismatch(err),
                    ParseErrorKind::UnexpectedEOF => Attempt::Failure(err),
                };
            },
            Ok(_) => (),
        }

        // Identifier ":" Type
        let field = match self.parse_field() {
            Err(err) => {
                self.input.pop();
                return Attempt::Failure(err);
            },
            Ok((field, _)) => field,
        };

        // "="
        self.skip_whitespace();
        match self.parse_token(TokenKind::Equal) {
            Err(err) => {
                self.input.pop();
                return Attempt::Failure(err);
            },
            Ok(_) => (),
        }

        // Expression
        self.skip_whitespace();
        let expression = match self.parse_expression() {
            Err(err) => {
                self.input.pop();
                return Attempt::Failure(err);
            },
            Ok((expression, _)) => expression,
        };

        // ";"
        self.skip_whitespace();
        let position = match self.parse_token(TokenKind::SemiColon) {
            Err(err) => {
                self.input.pop();
                return Attempt::Failure(err);
            },
            Ok((_, position)) => position,
        };

        self.input.drop();
        Attempt::Parsed(
            ConstantVariableDeclaration {
                is_var,
                identifier: field.identifier,
                const_type: field.field_type,
                value: expression,
            },
            position,
        )
    }

    /// Functions are not part of the grammar yet: this rule never matches.
    fn parse_fn_decl(&self) -> (attempt: Attempt<FunctionDeclaration>)
        requires
            self.wf(),
        ensures
            attempt matches Attempt::Mismatch(error) && rejected(
                self@,
                self@,
                error,
                spec_unimplemented::<()>(self@.tokens, self@.index),
            ),
    {
        Attempt::Mismatch(ParseError::unexpected_token(self))
    }

    /// Enumerations are not part of the grammar yet: this rule never
    /// matches.
    fn parse_enum_decl(&self) -> (attempt: Attempt<EnumDeclaration>)
        requires
            self.wf(),
        ensures
            attempt matches Attempt::Mismatch(error) && rejected(
                self@,
                self@,
                error,
                spec_unimplemented::<()>(self@.tokens, self@.index),
            ),
    {
        Attempt::Mismatch(ParseError::unexpected_token(self))
    }

    /// Reads the fields of a struct or union and the closing brace.
    fn parse_fields(&mut self) -> (result: ParseResult<Vec<Field>>)
        requires
            old(self).wf(),
        ensures
            final(self).wf(),
            match spec_fields(old(self)@.tokens, old(self)@.index) {
                Parsed::Match { value, next } => {
                    &&& result matches Ok((fields, position))
                    &&& field_views(fields@) == value
                    &&& advanced(old(self)@, final(self)@, position, next)
                },
                parsed => result matches Err(error) && rejected(
                    old(self)@,
                    final(self)@,
                    error,
                    parsed,
                ),
            },
    {
        let mut fields: Vec<Field> = Vec::new();
        self.input.push();

        // "}"
        self.skip_whitespace();
        match self.parse_token(TokenKind::RightBrace) {
            Ok((_, position)) => {
                self.input.drop();
                assert(field_views(fields@) =~= Seq::empty());
                return Ok((fields, position));
            },
            Err(_) => (),
        }

        // Field ( "," Field )* "}"
        assert(field_views(fields@) =~= Seq::empty());
        loop
            invariant
                self.wf(),
                self@.tokens == old(self)@.tokens,
                self@.stack == old(self)@.stack.push(old(self)@.index),
                self@.checkpoints - old(self)@.checkpoints == self@.releases
                    - old(self)@.releases + 1,
                old(self)@.index <= self@.index,
                spec_more_fields(self@.tokens, self@.index, field_views(fields@)) == spec_fields(
                    old(self)@.tokens,
                    old(self)@.index,
                ),
            decreases self@.tokens.len() - self@.index,
        {
            let ghost read = field_views(fields@);
            match self.parse_field() {
                Err(err) => {
                    self.input.pop();
                    return Err(err);
                },
                Ok((field, _)) => {
                    proof {
                        assert(field_views(fields@.push(field)) =~= read.push(field@));
                    }
                    fields.push(field);
                },
            }
            self.skip_whitespace();
            match self.parse_token(TokenKind::Comma) {
                Ok(_) => {
                    continue ;
                },
                Err(_) => (),
            }
            match self.parse_token(TokenKind::RightBrace) {
                Err(err) => {
                    self.input.pop();
                    return Err(err);
                },
                Ok((_, position)) => {
                    self.input.drop();
                    return Ok((fields, position));
                },
            }
        }
    }

    /// Reads a struct, or a union where `is_union` is set: the reserved
    /// word, a name, `{`, the fields with `,` between them, and `}`.
    fn parse_struct_or_union_decl(&mut self, is_union: bool) -> (attempt: Attempt<
        StructUnionDeclaration,
    >)
        requires
            old(self).wf(),
        ensures
            final(self).wf(),
            match spec_struct_or_union(old(self)@.tokens, old(self)@.index, is_union) {
                Parsed::Match { value, next } => {
                    &&& attempt matches Attempt::Parsed(declaration, position)
                    &&& declaration@ == value
                    &&& advanced(old(self)@, final(self)@, position, next)
                },
                Parsed::Mismatch { at } => attempt matches Attempt::Mismatch(error) && rejected(
                    old(self)@,
                    final(self)@,
                    error,
                    Parsed::<()>::Mismatch { at },
                ),
                Parsed::Failure { kind, at } => attempt matches Attempt::Failure(error) && rejected(
                    old(self)@,
                    final(self)@,
                    error,
                    Parsed::<()>::Failure { kind, at },
                ),
            },
    {
        let keyword = if is_union {
            Keyword::Union
        } else {
            Keyword::Struct
        };
        self.input.push();

        // keyword Identifier
        let identifier = match self.parse_keyword_with_identifier(keyword) {
            Attempt::Mismatch(err) => {
                self.input.pop();
                return Attempt::Mismatch(err);
            },
            Attempt::Failure(err) => {
                self.input.pop();
                return Attempt::Failure(err);
            },
            Attempt::Parsed(identifier, _) => identifier,
        };

        // "{"
        self.skip_whitespace();
        match self.parse_token(TokenKind::LeftBrace) {
            Err(err) => {
                self.input.pop();
                return Attempt::Failure(err);
            },
            Ok(_) => (),
        }

        // ( Field ( "," Field )* )? "}"
        match self.parse_fields() {
            Err(err) => {
                self.input.pop();
                Attempt::Failure(err)
            },
            Ok((fields, position)) => {
                self.input.drop();
                Attempt::Parsed(StructUnionDeclaration { is_union, identifier, fields }, position)
            },
        }
    }

    /// Reads a type declaration: `type`, a name, `=`, a type and `;`.
    fn parse_type_decl(&mut self) -> (attempt: Attempt<TypeDeclaration>)
        requires
            old(self).wf(),
        ensures
            final(self).wf(),
            match spec_type_decl(old(self)@.tokens, old(self)@.index) {
                Parsed::Match { value, next } => {
                    &&& attempt matches Attempt::Parsed(declaration, position)
                    &&& declaration@ == value
                    &&& advanced(old(self)@, final(self)@, position, next)
                },
                Parsed::Mismatch { at } => attempt matches Attempt::Mismatch(error) && rejected(
                    old(self)@,
                    final(self)@,
                    error,
                    Parsed::<()>::Mismatch { at },
                ),
                Parsed::Failure { kind, at } => attempt matches Attempt::Failure(error) && rejected(
                    old(self)@,
                    final(self)@,
                    error,
                    Parsed::<()>::Failure { kind, at },
                ),
            },
    {
        self.input.push();

        // keyword Identifier
        let identifier = match self.parse_keyword_with_identifier(Keyword::Type) {
            Attempt::Mismatch(err) => {
                self.input.pop();
                return Attempt::Mismatch(err);
            },
            Attempt::Failure(err) => {
                self.input.pop();
                return Attempt::Failure(err);
            },
            Attempt::Parsed(identifier, _) => identifier,
        };

        // "="
        self.skip_whitespace();
        match self.parse_token(TokenKind::Equal) {
            Err(err) => {
                self.input.pop();
                return Attempt::Failure(err);
            },
            Ok(_) => (),
        }

        // Type
        self.skip_whitespace();
        let ty = match self.parse_type() {
            Err(err) => {
                self.input.pop();
                return Attempt::Failure(err);
            },
            Ok((ty, _)) => ty,
        };

        // ";"
        self.skip_whitespace();
        let position = match self.parse_token(TokenKind::SemiColon) {
            Err(err) => {
                self.input.pop();
                return Attempt::Failure(err);
            },
            Ok((_, position)) => position,
        };

        self.input.drop();
        Attempt::Parsed(TypeDeclaration { identifier, ty }, position)
    }

    /// Reads one declaration, with any whitespace before it and between its
    /// tokens. The kinds of declaration are tried in a fixed order:
    /// constant, variable, function, struct, union, enumeration, type. A
    /// kind whose reserved word is not at hand lets the next one try. Once
    /// the reserved word of a kind has been read, the declaration is of that
    /// kind, and what is wrong with it is the error that is handed out. On
    /// every error the parser is where it was before the call.
    pub fn parse_declaration(&mut self) -> (result: ParseResult<Statement>)
        requires
            old(self).wf(),
        ensures
            final(self).wf(),
            match spec_declaration(old(self)@.tokens, old(self)@.index) {
                Parsed::Match { value, next } => {
                    &&& result matches Ok((statement, position))
                    &&& statement@ == value
                    &&& advanced(old(self)@, final(self)@, position, next)
                },
                parsed => result matches Err(error) && rejected(
                    old(self)@,
                    final(self)@,
                    error,
                    parsed,
                ),
            },
    {
        match self.parse_const_or_var_decl(false) {
            Attempt::Parsed(decl, pos) => return Ok((Statement::ConstantDeclaration(decl), pos)),
            Attempt::Failure(err) => return Err(err),
            Attempt::Mismatch(_) => (),
        }

        match self.parse_const_or_var_decl(true) {
            Attempt::Parsed(decl, pos) => return Ok((Statement::VariableDeclaration(decl), pos)),
            Attempt::Failure(err) => return Err(err),
            Attempt::Mismatch(_) => (),
        }

        match self.parse_fn_decl() {
            Attempt::Parsed(decl, pos) => return Ok((Statement::FunctionDeclaration(decl), pos)),
            Attempt::Failure(err) => return Err(err),
            Attempt::Mismatch(_) => (),
        }

        match self.parse_struct_or_union_decl(false) {
            Attempt::Parsed(decl, pos) => return Ok((Statement::StructDeclaration(decl), pos)),
            Attempt::Failure(err) => return Err(err),
            Attempt::Mismatch(_) => (),
        }

        match self.parse_struct_or_union_decl(true) {
            Attempt::Parsed(decl, pos) => return Ok((Statement::UnionDeclaration(decl), pos)),
            Attempt::Failure(err) => return Err(err),
            Attempt::Mismatch(_) => (),
        }

        match self.parse_enum_decl() {
            Attempt::Parsed(decl, pos) => return Ok((Statement::EnumDeclaration(decl), pos)),
            Attempt::Failure(err) => return Err(err),
            Attempt::Mismatch(_) => (),
        }

        match self.parse_type_decl() {
            Attempt::Parsed(decl, pos) => Ok((Statement::TypeDeclaration(decl), pos)),
            Attempt::Failure(err) => Err(err),
            // No kind of declaration starts with the token at hand.
            Attempt::Mismatch(err) => Err(err),
        }
    }
}

/// Whether `token` is whitespace.
fn is_blank(token: &Token) -> (blank: bool)
    ensures
        blank == (token@.kind is Whitespace),
{
    match token.kind {
        TokenKind::Whitespace(_) => true,
        _ => false,
    }
}

} // verus!
