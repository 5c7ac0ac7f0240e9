use vstd::prelude::*;

use crate::lexeme::{
    closes_run, decimal_digit, decimal_value, find_quote, ident_head, ident_tail,
    identifier_spelling, keyword_of, lemma_find_quote, lemma_find_quote_unique, lemma_keyword_of,
    lemma_literal_value_grows, lemma_literal_value_push, lemma_run_end_closes,
    lemma_run_end_unique, lemma_spelling_is_identifier, literal_value, lookup_keyword, reserved,
    run_end, spelling, whitespace, without_separators, CharClass,
};
use crate::position::{
    lemma_line_column_bounded, lemma_line_monotonic, line_at, locates, place, span, TextPosition,
    TokenPosition,
};
use crate::symbol::{
    first_symbol, lemma_first_symbol, lemma_no_symbol_at_end, lemma_symbol_heads,
    lemma_symbols_by_length, stands_at, symbol, symbol_kind, symbol_pattern, SYMBOLS,
};
use crate::text::{collect_string, decimal_text, push_decimal, spells};
use crate::token::{IntegerLiteralKind, Keyword, KindView, Token, TokenKind, TokenView};

verus! {

/// Why a call of the lexer yielded no token.
#[derive(Debug, Clone, Copy, PartialEq, Eq, Structural)]
pub enum LexErrorKind {
    /// The text ended inside a character or string literal.
    UnexpectedEOF,
    /// The text is used up: the regular end of lexing.
    InputExhausted,
    /// No lexeme starts with the character at hand.
    UnrecognizedCharacter,
    /// More than one character stands between the quotes of a character
    /// literal.
    MultipleCharLiteral,
    /// Nothing stands between the quotes of a character literal.
    EmptyCharLiteral,
    /// The digits of an integer literal denote a number above 65535.
    IntegerOverflow,
    /// No lexeme of the class that was tried starts at the lexer's place.
    /// Only the single recognizers report it; `next_token` never does.
    NonconformingLexeme,
}

/// The message of an error that was given none.
pub open spec fn message_not_given() -> Seq<char> {
    "Not given"@
}

/// The message for a character literal that the end of the text cuts off.
pub open spec fn message_open_char_literal() -> Seq<char> {
    "Unexpected EOF when searching for `'`"@
}

/// The message for a character literal with nothing between its quotes.
pub open spec fn message_empty_char_literal() -> Seq<char> {
    "Character literal may not be empty."@
}

/// The message for a character literal with `count` characters between its
/// quotes.
pub open spec fn message_multiple_char_literal(count: nat) -> Seq<char> {
    "Character literal may only contain 1 character. Found "@ + decimal_text(count)
}

/// The message for an integer literal that is too large.
pub open spec fn message_integer_overflow() -> Seq<char> {
    "Integer literal does not fit in 16 bits."@
}

/// The message for a character that starts no lexeme.
pub open spec fn message_unrecognized(c: char) -> Seq<char> {
    "Unrecognized character '"@.push(c).push('\'')
}

/// What one step of lexing yields.
pub enum Lexed {
    /// A token of the given kind, whose lexeme reaches up to offset `end`.
    Token { kind: KindView, end: int },
    /// An error, reported at offset `at`; the lexer is left at offset
    /// `resume`.
    Fault { error: LexErrorKind, message: Seq<char>, at: int, resume: int },
}

/// The whitespace token that starts at `from`.
pub open spec fn lex_whitespace(text: Seq<char>, from: int) -> Lexed {
    let end = run_end(text, from, CharClass::Whitespace);
    Lexed::Token {
        kind: KindView::Whitespace((line_at(text, end) - line_at(text, from)) as usize),
        end,
    }
}

/// The integer literal that starts at `from`: digits and separators as far
/// as they go. A value above 65535 is an error: it is reported at the start
/// of the literal, and the lexer is left behind the literal.
pub open spec fn lex_integer(text: Seq<char>, from: int) -> Lexed {
    let end = run_end(text, from, CharClass::LiteralBody);
    let value = literal_value(text.subrange(from, end));
    if value <= u16::MAX {
        Lexed::Token {
            kind: KindView::IntegerLiteral(IntegerLiteralKind::Decimal, value as u16),
            end,
        }
    } else {
        Lexed::Fault {
            error: LexErrorKind::IntegerOverflow,
            message: message_integer_overflow(),
            at: from,
            resume: end,
        }
    }
}

/// The character literal whose opening quote stands at `from`: exactly one
/// character, then the closing quote. Every error is reported at the opening
/// quote, where the lexer stays.
pub open spec fn lex_char(text: Seq<char>, from: int) -> Lexed {
    let close = find_quote(text, from + 1, '\'');
    if close >= text.len() {
        Lexed::Fault {
            error: LexErrorKind::UnexpectedEOF,
            message: message_open_char_literal(),
            at: from,
            resume: from,
        }
    } else if close == from + 1 {
        Lexed::Fault {
            error: LexErrorKind::EmptyCharLiteral,
            message: message_empty_char_literal(),
            at: from,
            resume: from,
        }
    } else if close == from + 2 {
        Lexed::Token { kind: KindView::CharLiteral(text[from + 1]), end: from + 3 }
    } else {
        Lexed::Fault {
            error: LexErrorKind::MultipleCharLiteral,
            message: message_multiple_char_literal((close - from - 1) as nat),
            at: from,
            resume: from,
        }
    }
}

/// The string literal whose opening quote stands at `from`: everything up to
/// the next double quote, taken as it is. Where no quote follows, the error
/// is reported at the end of the text, and the lexer is left there.
pub open spec fn lex_string(text: Seq<char>, from: int) -> Lexed {
    let close = find_quote(text, from + 1, '"');
    if close >= text.len() {
        Lexed::Fault {
            error: LexErrorKind::UnexpectedEOF,
            message: message_not_given(),
            at: text.len() as int,
            resume: text.len() as int,
        }
    } else {
        Lexed::Token {
            kind: KindView::StringLiteral(text.subrange(from + 1, close)),
            end: close + 1,
        }
    }
}

/// The kind of the word `word`: the reserved word that it spells, or else an
/// identifier with that text.
pub open spec fn classify(word: Seq<char>) -> KindView {
    match keyword_of(word) {
        Some(keyword) => KindView::Keyword(keyword),
        None => KindView::Identifier(word),
    }
}

/// The identifier or reserved word that starts at `from`.
pub open spec fn lex_word(text: Seq<char>, from: int) -> Lexed {
    let end = run_end(text, from, CharClass::IdentTail);
    Lexed::Token { kind: classify(text.subrange(from, end)), end }
}

/// The punctuation or operator symbol that stands at `from`: the first of
/// the table that does. Where none does, the character is not recognized.
pub open spec fn lex_symbol(text: Seq<char>, from: int) -> Lexed {
    let index = first_symbol(text, from, 0);
    if index < SYMBOLS {
        Lexed::Token {
            kind: KindView::Plain(symbol_kind(index)),
            end: from + symbol_pattern(index).len(),
        }
    } else {
        Lexed::Fault {
            error: LexErrorKind::UnrecognizedCharacter,
            message: message_unrecognized(text[from]),
            at: from,
            resume: from,
        }
    }
}

/// What lexing yields at offset `from` of `text`. The character at `from`
/// decides which class of lexeme is read.
pub open spec fn lex_at(text: Seq<char>, from: int) -> Lexed {
    if from < 0 || from >= text.len() {
        Lexed::Fault {
            error: LexErrorKind::InputExhausted,
            message: message_not_given(),
            at: from,
            resume: from,
        }
    } else if whitespace(text[from]) {
        lex_whitespace(text, from)
    } else if decimal_digit(text[from]) {
        lex_integer(text, from)
    } else if text[from] == '\'' {
        lex_char(text, from)
    } else if text[from] == '"' {
        lex_string(text, from)
    } else if ident_head(text[from]) {
        lex_word(text, from)
    } else {
        lex_symbol(text, from)
    }
}

/// An error of the lexer: its kind, a message for the reader, and the place
/// in the text that it is about.
#[derive(Debug, PartialEq)]
pub struct LexError {
    pub kind: LexErrorKind,
    pub msg: String,
    pub position: TextPosition,
}

impl LexError {
    /// An error of the given kind at the given place, with the message
    /// "Not given".
    pub fn new(kind: LexErrorKind, position: TextPosition) -> (error: LexError)
        ensures
            error.kind == kind,
            error.msg@ == message_not_given(),
            error.position == position,
    {
        LexError { kind, msg: String::from_str("Not given"), position }
    }

    /// The same error with `msg` as its message.
    pub fn with_msg(self, msg: String) -> (error: LexError)
        ensures
            error.kind == self.kind,
            error.msg@ == msg@,
            error.position == self.position,
    {
        LexError { kind: self.kind, position: self.position, msg }
    }

    /// The place that the error is about.
    pub fn get_position(&self) -> (position: TextPosition)
        ensures
            position == self.position,
    {
        self.position
    }
}

/// What the lexer hands out: a value, or an error.
pub type LexResult<T> = Result<T, LexError>;

/// Whether `c` may start an identifier.
pub fn is_ident_head(c: char) -> (head: bool)
    ensures
        head == ident_head(c),
{
    ('a' <= c && c <= 'z') || ('A' <= c && c <= 'Z') || c == '_'
}

/// Whether `c` may continue an identifier.
pub fn is_ident_tail(c: char) -> (tail: bool)
    ensures
        tail == ident_tail(c),
{
    is_ident_head(c) || ('0' <= c && c <= '9')
}

/// Whether `c` may stand in an integer literal: a decimal digit or the
/// separator `_`.
pub fn is_opal_decimal_digit(c: char) -> (body: bool)
    ensures
        body == CharClass::LiteralBody.holds(c),
{
    ('0' <= c && c <= '9') || c == '_'
}

/// Whether `c` is ASCII whitespace.
pub fn is_whitespace(c: char) -> (space: bool)
    ensures
        space == whitespace(c),
{
    c == ' ' || c == '\t' || c == '\n' || c == '\x0C' || c == '\r'
}

impl CharClass {
    /// Whether `c` belongs to the class.
    pub fn test(self, c: char) -> (member: bool)
        ensures
            member == self.holds(c),
    {
        match self {
            CharClass::Whitespace => is_whitespace(c),
            CharClass::LiteralBody => is_opal_decimal_digit(c),
            CharClass::IdentTail => is_ident_tail(c),
        }
    }
}

/// The value of the integer literal `run`, or `None` where it is above
/// 65535.
fn parse_literal(run: &Vec<char>) -> (value: Option<u16>)
    requires
        forall|i: int| 0 <= i < run@.len() ==> CharClass::LiteralBody.holds(#[trigger] run@[i]),
    ensures
        match value {
            Some(v) => v == literal_value(run@),
            None => literal_value(run@) > u16::MAX,
        },
{
    let mut value: u32 = 0;
    let mut i: usize = 0;
    proof {
        lemma_literal_value_grows(run@, 0, 0, 0);
    }
    while i < run.len()
        invariant
            i <= run@.len(),
            forall|j: int| 0 <= j < run@.len() ==> CharClass::LiteralBody.holds(#[trigger] run@[j]),
            value == literal_value(run@.subrange(0, i as int)),
            value <= u16::MAX,
        decreases run@.len() - i,
    {
        let c = run[i];
        proof {
            assert(run@.subrange(0, i + 1) =~= run@.subrange(0, i as int).push(c));
            lemma_literal_value_push(run@.subrange(0, i as int), c);
        }
        if c != '_' {
            value = value * 10 + ((c as u32) - ('0' as u32));
            if value > 65535 {
                proof {
                    lemma_literal_value_grows(run@, 0, i + 1, run@.len() as int);
                    assert(run@.subrange(0, run@.len() as int) =~= run@);
                }
                return None;
            }
        }
        i += 1;
    }
    assert(run@.subrange(0, run@.len() as int) =~= run@);
    Some(value as u16)
}

/// A lexer over a text: the text, and the place up to which it has been
/// read.
pub struct Lexer {
    input: Vec<char>,
    position: TextPosition,
}

impl Lexer {
    /// The text that the lexer reads.
    pub closed spec fn text(&self) -> Seq<char> {
        self.input@
    }

    /// The offset up to which the text has been read.
    pub closed spec fn offset(&self) -> int {
        self.position.absolute as int
    }

    /// The lexer stands inside its text, and its line and column are those
    /// of its offset.
    pub closed spec fn wf(&self) -> bool {
        locates(self.position, self.input@, self.position.absolute as int)
    }

    /// A lexer at the start of `input`.
    pub fn new(input: &str) -> (lexer: Lexer)
        ensures
            lexer.wf(),
            lexer.text() == input@,
            lexer.text().len() <= usize::MAX,
            lexer.offset() == 0,
    {
        let mut chars: Vec<char> = Vec::new();
        for c in it: input.chars()
            invariant
                chars@ == it.seq().take(it.index() as int),
                it.seq() == input@,
        {
            chars.push(c);
        }
        assert(chars@.len() == chars.len());
        Lexer { input: chars, position: TextPosition::origin() }
    }

    /// The character at the lexer's offset, or `None` at the end of the
    /// text.
    fn current(&self) -> (c: Option<char>)
        requires
            self.wf(),
        ensures
            c == if self.offset() < self.text().len() {
                Some(self.text()[self.offset()])
            } else {
                None
            },
    {
        if self.position.absolute < self.input.len() {
            Some(self.input[self.position.absolute])
        } else {
            None
        }
    }

    /// Moves one character on, unless the text is used up.
    fn advance(&mut self)
        requires
            old(self).wf(),
        ensures
            final(self).wf(),
            final(self).text() == old(self).text(),
            final(self).offset() == if old(self).offset() < old(self).text().len() {
                old(self).offset() + 1
            } else {
                old(self).offset()
            },
    {
        if self.position.absolute < self.input.len() {
            let c = self.input[self.position.absolute];
            proof {
                lemma_line_column_bounded(self.input@, self.position.absolute as int);
            }
            self.position = self.position.after(c);
        }
    }

    /// Moves on by `by` characters, or to the end of the text where fewer
    /// are left, and hands out the characters passed.
    fn advance_by(&mut self, by: usize) -> (passed: Vec<char>)
        requires
            old(self).wf(),
        ensures
            final(self).wf(),
            final(self).text() == old(self).text(),
            final(self).offset() == if old(self).offset() + by <= old(self).text().len() {
                old(self).offset() + by
            } else {
                old(self).text().len() as int
            },
            passed@ == old(self).text().subrange(old(self).offset(), final(self).offset()),
    {
        let mut passed: Vec<char> = Vec::new();
        let mut count = by;
        let ghost from = self.offset();
        while count > 0 && self.position.absolute < self.input.len()
            invariant
                self.wf(),
                self.text() == old(self).text(),
                from == old(self).offset(),
                from <= self.offset() <= self.text().len(),
                self.offset() - from == by - count,
                passed@ == self.text().subrange(from, self.offset()),
            decreases count,
        {
            let c = self.input[self.position.absolute];
            let ghost before = self.offset();
            self.advance();
            passed.push(c);
            assert(self.text().subrange(from, before + 1) =~= self.text().subrange(
                from,
                before,
            ).push(c));
            count -= 1;
        }
        passed
    }

    /// Moves on over the maximal run of characters of `class`, and hands
    /// out the run.
    fn advance_while(&mut self, class: CharClass) -> (run: Vec<char>)
        requires
            old(self).wf(),
        ensures
            final(self).wf(),
            final(self).text() == old(self).text(),
            final(self).offset() == run_end(old(self).text(), old(self).offset(), class),
            closes_run(old(self).text(), old(self).offset(), class, final(self).offset()),
            run@ == old(self).text().subrange(old(self).offset(), final(self).offset()),
    {
        let mut run: Vec<char> = Vec::new();
        let ghost from = self.offset();
        while self.position.absolute < self.input.len() && class.test(
            self.input[self.position.absolute],
        )
            invariant
                self.wf(),
                self.text() == old(self).text(),
                from == old(self).offset(),
                from <= self.offset() <= self.text().len(),
                forall|i: int| from <= i < self.offset() ==> class.holds(#[trigger] self.text()[i]),
                run@ == self.text().subrange(from, self.offset()),
            decreases self.text().len() - self.offset(),
        {
            let c = self.input[self.position.absolute];
            let ghost before = self.offset();
            self.advance();
            run.push(c);
            assert(self.text().subrange(from, before + 1) =~= self.text().subrange(
                from,
                before,
            ).push(c));
        }
        proof {
            lemma_run_end_unique(self.text(), from, class, self.offset());
        }
        run
    }
}

/// `result` and the state `after` are what `lexed` asks of a lexer that was
/// in the state `before`.
pub open spec fn yields(
    before: Lexer,
    after: Lexer,
    result: LexResult<Token>,
    lexed: Lexed,
) -> bool {
    match lexed {
        Lexed::Token { kind, end } => {
            &&& result matches Ok(token)
            &&& token@ == (TokenView {
                kind,
                position: span(before.text(), before.offset(), end),
            })
            &&& after.offset() == end
        },
        Lexed::Fault { error, message, at, resume } => {
            &&& result matches Err(e)
            &&& e.kind == error
            &&& e.msg@ == message
            &&& e.position == place(before.text(), at)
            &&& after.offset() == resume
        },
    }
}

/// `result` says that no lexeme of the class that was tried starts at the
/// lexer's place, and the lexer has not moved.
pub open spec fn declined(before: Lexer, after: Lexer, result: LexResult<Token>) -> bool {
    &&& result matches Err(e)
    &&& e.kind == LexErrorKind::NonconformingLexeme
    &&& e.msg@ == message_not_given()
    &&& e.position == place(before.text(), before.offset())
    &&& after.offset() == before.offset()
}

/// `result` says that the text has ended where the lexeme would have to
/// start, and the lexer has not moved.
pub open spec fn ran_out(before: Lexer, after: Lexer, result: LexResult<Token>) -> bool {
    &&& result matches Err(e)
    &&& e.kind == LexErrorKind::UnexpectedEOF
    &&& e.msg@ == message_not_given()
    &&& e.position == place(before.text(), before.offset())
    &&& after.offset() == before.offset()
}

impl Lexer {
    /// Reads a run of whitespace as one token that carries the number of
    /// line breaks in the run. Where no whitespace stands at the lexer's
    /// place, be it another character or the end of the text, it declines
    /// with `NonconformingLexeme` and does not move.
    pub fn next_whitespace(&mut self) -> (result: LexResult<Token>)
        requires
            old(self).wf(),
        ensures
            final(self).wf(),
            final(self).text() == old(self).text(),
            if old(self).offset() < old(self).text().len() && whitespace(
                old(self).text()[old(self).offset()],
            ) {
                yields(
                    *old(self),
                    *final(self),
                    result,
                    lex_whitespace(old(self).text(), old(self).offset()),
                )
            } else {
                declined(*old(self), *final(self), result)
            },
    {
        let start = self.position;
        let consumed = self.advance_while(CharClass::Whitespace);
        proof {
            lemma_line_monotonic(self.text(), start.absolute as int, self.offset());
        }
        match consumed.len() {
            0 => Err(LexError::new(LexErrorKind::NonconformingLexeme, self.position)),
            _ => Ok(
                Token::new(
                    TokenKind::Whitespace(self.position.line - start.line),
                    TokenPosition::new(start, self.position),
                ),
            ),
        }
    }

    /// Reads an integer literal: a digit, then digits and separators as far
    /// as they go. Where no digit stands at the lexer's place, be it
    /// another character or the end of the text, it declines with
    /// `NonconformingLexeme` and does not move.
    pub fn next_integer_literal(&mut self) -> (result: LexResult<Token>)
        requires
            old(self).wf(),
        ensures
            final(self).wf(),
            final(self).text() == old(self).text(),
            if old(self).offset() < old(self).text().len() && decimal_digit(
                old(self).text()[old(self).offset()],
            ) {
                yields(
                    *old(self),
                    *final(self),
                    result,
                    lex_integer(old(self).text(), old(self).offset()),
                )
            } else {
                declined(*old(self), *final(self), result)
            },
    {
        let start = self.position;
        let digit = match self.current() {
            Some(c) => '0' <= c && c <= '9',
            None => false,
        };
        if !digit {
            return Err(LexError::new(LexErrorKind::NonconformingLexeme, self.position));
        }
        let consumed = self.advance_while(CharClass::LiteralBody);
        match parse_literal(&consumed) {
            Some(literal) => Ok(
                Token::new(
                    TokenKind::IntegerLiteral(IntegerLiteralKind::Decimal, literal),
                    TokenPosition::new(start, self.position),
                ),
            ),
            None => Err(
                LexError::new(LexErrorKind::IntegerOverflow, start).with_msg(
                    String::from_str("Integer literal does not fit in 16 bits."),
                ),
            ),
        }
    }

    /// Reads a character literal: a quote, one character, a quote. Before
    /// another character it declines with `NonconformingLexeme`; at the end
    /// of the text it reports `UnexpectedEOF`. In both cases it does not
    /// move.
    pub fn next_char_literal(&mut self) -> (result: LexResult<Token>)
        requires
            old(self).wf(),
        ensures
            final(self).wf(),
            final(self).text() == old(self).text(),
            if old(self).offset() >= old(self).text().len() {
                ran_out(*old(self), *final(self), result)
            } else if old(self).text()[old(self).offset()] == '\'' {
                yields(
                    *old(self),
                    *final(self),
                    result,
                    lex_char(old(self).text(), old(self).offset()),
                )
            } else {
                declined(*old(self), *final(self), result)
            },
    {
        let start = self.position;
        match self.current() {
            None => return Err(LexError::new(LexErrorKind::UnexpectedEOF, self.position)),
            Some('\'') => (),
            _ => return Err(LexError::new(LexErrorKind::NonconformingLexeme, self.position)),
        }
        self.advance();
        let mut count: usize = 0;
        let mut literal: char = '\'';
        let ghost from = start.absolute as int;
        while self.position.absolute < self.input.len() && self.input[self.position.absolute]
            != '\''
            invariant
                self.wf(),
                self.text() == old(self).text(),
                locates(start, self.text(), from),
                from < self.offset() <= self.text().len(),
                count == self.offset() - from - 1,
                forall|i: int| from < i < self.offset() ==> #[trigger] self.text()[i] != '\'',
                count > 0 ==> literal == self.text()[from + 1],
            decreases self.text().len() - self.offset(),
        {
            if count == 0 {
                literal = self.input[self.position.absolute];
            }
            count += 1;
            self.advance();
        }
        proof {
            lemma_find_quote_unique(self.text(), from + 1, '\'', self.offset());
        }
        if self.position.absolute >= self.input.len() {
            self.position = start;
            return Err(
                LexError::new(LexErrorKind::UnexpectedEOF, start).with_msg(
                    String::from_str("Unexpected EOF when searching for `'`"),
                ),
            );
        }
        match count {
            1 => {
                self.advance();
                Ok(
                    Token::new(
                        TokenKind::CharLiteral(literal),
                        TokenPosition::new(start, self.position),
                    ),
                )
            },
            0 => {
                self.position = start;
                Err(
                    LexError::new(LexErrorKind::EmptyCharLiteral, start).with_msg(
                        String::from_str("Character literal may not be empty."),
                    ),
                )
            },
            n => {
                self.position = start;
                let mut msg = String::from_str(
                    "Character literal may only contain 1 character. Found ",
                );
                push_decimal(&mut msg, n);
                Err(LexError::new(LexErrorKind::MultipleCharLiteral, start).with_msg(msg))
            },
        }
    }

    /// Reads a string literal: a double quote, then everything up to the
    /// next double quote. Before another character it declines with
    /// `NonconformingLexeme`; at the end of the text it reports
    /// `UnexpectedEOF`. In both cases it does not move.
    pub fn next_string_literal(&mut self) -> (result: LexResult<Token>)
        requires
            old(self).wf(),
        ensures
            final(self).wf(),
            final(self).text() == old(self).text(),
            if old(self).offset() >= old(self).text().len() {
                ran_out(*old(self), *final(self), result)
            } else if old(self).text()[old(self).offset()] == '"' {
                yields(
                    *old(self),
                    *final(self),
                    result,
                    lex_string(old(self).text(), old(self).offset()),
                )
            } else {
                declined(*old(self), *final(self), result)
            },
    {
        let start = self.position;
        match self.current() {
            None => return Err(LexError::new(LexErrorKind::UnexpectedEOF, self.position)),
            Some('"') => (),
            _ => return Err(LexError::new(LexErrorKind::NonconformingLexeme, self.position)),
        }
        self.advance();
        let mut literal = String::new();
        let ghost from = start.absolute as int;
        while self.position.absolute < self.input.len() && self.input[self.position.absolute]
            != '"'
            invariant
                self.wf(),
                self.text() == old(self).text(),
                0 <= from < self.offset() <= self.text().len(),
                forall|i: int| from < i < self.offset() ==> #[trigger] self.text()[i] != '"',
                literal@ == self.text().subrange(from + 1, self.offset()),
            decreases self.text().len() - self.offset(),
        {
            let c = self.input[self.position.absolute];
            let ghost before = self.offset();
            literal.push(c);
            self.advance();
            assert(self.text().subrange(from + 1, before + 1) =~= self.text().subrange(
                from + 1,
                before,
            ).push(c));
        }
        proof {
            lemma_find_quote_unique(self.text(), from + 1, '"', self.offset());
        }
        if self.position.absolute >= self.input.len() {
            return Err(LexError::new(LexErrorKind::UnexpectedEOF, self.position));
        }
        self.advance();
        Ok(Token::new(TokenKind::StringLiteral(literal), TokenPosition::new(start, self.position)))
    }

    /// Reads an identifier or a reserved word: a head character, then tail
    /// characters as far as they go. Before another character it declines
    /// with `NonconformingLexeme`; at the end of the text it reports
    /// `UnexpectedEOF`. In both cases it does not move.
    pub fn next_identifier_or_keyword(&mut self) -> (result: LexResult<Token>)
        requires
            old(self).wf(),
        ensures
            final(self).wf(),
            final(self).text() == old(self).text(),
            if old(self).offset() >= old(self).text().len() {
                ran_out(*old(self), *final(self), result)
            } else if ident_head(old(self).text()[old(self).offset()]) {
                yields(
                    *old(self),
                    *final(self),
                    result,
                    lex_word(old(self).text(), old(self).offset()),
                )
            } else {
                declined(*old(self), *final(self), result)
            },
    {
        let start = self.position;
        match self.current() {
            None => return Err(LexError::new(LexErrorKind::UnexpectedEOF, self.position)),
            Some(c) => {
                if !is_ident_head(c) {
                    return Err(LexError::new(LexErrorKind::NonconformingLexeme, self.position));
                }
            },
        }
        let word = self.advance_while(CharClass::IdentTail);
        Ok(self.to_identifier_or_keyword(start, &word))
    }

    /// The token for the word `word`, which reaches from `start` to the
    /// lexer's place: the reserved word that it spells, or else an
    /// identifier.
    fn to_identifier_or_keyword(&self, start: TextPosition, word: &Vec<char>) -> (token: Token)
        ensures
            token@ == (TokenView {
                kind: classify(word@),
                position: TokenPosition { start, end: self.position },
            }),
    {
        let position = TokenPosition { start, end: self.position };
        match lookup_keyword(word) {
            Some(keyword) => Token::keyword(keyword, position),
            None => Token::new(TokenKind::Identifier(collect_string(word)), position),
        }
    }

    /// Reads `pattern` where it stands at the lexer's place; otherwise the
    /// lexer does not move.
    fn next_match(&mut self, pattern: &str) -> (result: LexResult<()>)
        requires
            old(self).wf(),
        ensures
            final(self).wf(),
            final(self).text() == old(self).text(),
            result is Ok <==> stands_at(old(self).text(), old(self).offset(), pattern@),
            result is Ok ==> final(self).offset() == old(self).offset() + pattern@.len(),
            result is Err ==> final(self).offset() == old(self).offset(),
    {
        let start = self.position;
        let passed = self.advance_by(pattern.unicode_len());
        if spells(&passed, pattern) {
            Ok(())
        } else {
            self.position = start;
            Err(LexError::new(LexErrorKind::NonconformingLexeme, self.position))
        }
    }

    /// Reads a punctuation or operator symbol: the first of the table that
    /// stands at the lexer's place, which is the longest that does. Where
    /// none stands there, be it another character or the end of the text,
    /// it declines with `NonconformingLexeme` and does not move.
    pub fn next_primitive_token(&mut self) -> (result: LexResult<Token>)
        requires
            old(self).wf(),
        ensures
            final(self).wf(),
            final(self).text() == old(self).text(),
            if first_symbol(old(self).text(), old(self).offset(), 0) < SYMBOLS {
                yields(
                    *old(self),
                    *final(self),
                    result,
                    lex_symbol(old(self).text(), old(self).offset()),
                )
            } else {
                declined(*old(self), *final(self), result)
            },
            old(self).offset() >= old(self).text().len() ==> declined(
                *old(self),
                *final(self),
                result,
            ),
    {
        proof {
            if self.offset() >= self.text().len() {
                lemma_no_symbol_at_end(self.text(), self.offset());
            }
        }
        let start = self.position;
        let mut index: usize = 0;
        while index < SYMBOLS
            invariant
                self.wf(),
                self.text() == old(self).text(),
                self.offset() == old(self).offset(),
                locates(start, self.text(), self.offset()),
                index <= SYMBOLS,
                forall|i: int|
                    0 <= i < index ==> !stands_at(
                        self.text(),
                        self.offset(),
                        #[trigger] symbol_pattern(i),
                    ),
            decreases SYMBOLS - index,
        {
            let (pattern, kind) = symbol(index);
            if self.next_match(pattern).is_ok() {
                proof {
                    lemma_first_symbol(old(self).text(), old(self).offset(), 0);
                    lemma_symbol_heads(index as int);
                }
                return Ok(Token::new(kind, TokenPosition::new(start, self.position)));
            }
            index += 1;
        }
        proof {
            lemma_first_symbol(old(self).text(), old(self).offset(), 0);
        }
        Err(LexError::new(LexErrorKind::NonconformingLexeme, self.position))
    }
}

/// A token that lexing yields is not empty and ends inside the text.
pub proof fn lemma_lex_at_advances(text: Seq<char>, from: int)
    requires
        0 <= from <= text.len(),
    ensures
        lex_at(text, from) matches Lexed::Token { end, .. } ==> from < end <= text.len(),
        lex_at(text, from) matches Lexed::Fault { at, resume, .. } ==> from <= at <= text.len()
            && from <= resume <= text.len(),
{
    if from < text.len() {
        lemma_run_end_closes(text, from, CharClass::Whitespace);
        lemma_run_end_closes(text, from, CharClass::LiteralBody);
        lemma_run_end_closes(text, from, CharClass::IdentTail);
        lemma_find_quote(text, from + 1, '\'');
        lemma_find_quote(text, from + 1, '"');
        lemma_first_symbol(text, from, 0);
        let index = first_symbol(text, from, 0);
        if index < SYMBOLS {
            lemma_symbols_by_length(index, index);
        }
    }
}

impl Lexer {
    /// The next token of the text. The lexer moves to the end of the
    /// token's lexeme, so that the next call goes on from there.
    ///
    /// At the end of the text the result is the error `InputExhausted`,
    /// which is how lexing ends regularly. Every other error says that the
    /// text holds no token at this place. After a broken character literal,
    /// or a character that starts no token, the lexer has not moved; after
    /// an integer literal that is too large it stands behind the literal,
    /// and after a string literal that is not closed at the end of the
    /// text.
    pub fn next_token(&mut self) -> (result: LexResult<Token>)
        requires
            old(self).wf(),
        ensures
            final(self).wf(),
            final(self).text() == old(self).text(),
            yields(*old(self), *final(self), result, lex_at(old(self).text(), old(self).offset())),
            0 <= old(self).offset() <= final(self).offset() <= old(self).text().len(),
            result is Ok ==> old(self).offset() < final(self).offset(),
    {
        proof {
            lemma_lex_at_advances(self.text(), self.offset());
        }
        let c = match self.current() {
            None => return Err(LexError::new(LexErrorKind::InputExhausted, self.position)),
            Some(c) => c,
        };

        match self.next_whitespace() {
            Ok(token) => return Ok(token),
            Err(err) => match err.kind {
                LexErrorKind::NonconformingLexeme => (),
                _ => return Err(err),
            },
        }

        match self.next_integer_literal() {
            Ok(token) => return Ok(token),
            Err(err) => match err.kind {
                LexErrorKind::NonconformingLexeme => (),
                _ => return Err(err),
            },
        }

        match self.next_char_literal() {
            Ok(token) => return Ok(token),
            Err(err) => match err.kind {
                LexErrorKind::NonconformingLexeme => (),
                _ => return Err(err),
            },
        }

        match self.next_string_literal() {
            Ok(token) => return Ok(token),
            Err(err) => match err.kind {
                LexErrorKind::NonconformingLexeme => (),
                _ => return Err(err),
            },
        }

        match self.next_identifier_or_keyword() {
            Ok(token) => return Ok(token),
            Err(err) => match err.kind {
                LexErrorKind::NonconformingLexeme => (),
                _ => return Err(err),
            },
        }

        match self.next_primitive_token() {
            Ok(token) => return Ok(token),
            Err(err) => match err.kind {
                LexErrorKind::NonconformingLexeme => (),
                _ => return Err(err),
            },
        }

        let mut msg = String::from_str("Unrecognized character '");
        msg.push(c);
        msg.push('\'');
        Err(LexError::new(LexErrorKind::UnrecognizedCharacter, self.position).with_msg(msg))
    }
}

/// What lexing a text from some offset to its end yields: the tokens, the
/// offset up to which they reach, and the outcome of the step that yielded
/// no further token.
pub struct Lexing {
    pub tokens: Seq<TokenView>,
    pub end: int,
    pub fault: Lexed,
}

/// The tokens of `text` from offset `from` on, one step of lexing after the
/// other, up to the first step that yields no token.
pub open spec fn lex_from(text: Seq<char>, from: int) -> Lexing
    decreases text.len() - from,
{
    match lex_at(text, from) {
        Lexed::Token { kind, end } => {
            if from < end <= text.len() {
                let rest = lex_from(text, end);
                Lexing {
                    tokens: seq![TokenView { kind, position: span(text, from, end) }] + rest.tokens,
                    end: rest.end,
                    fault: rest.fault,
                }
            } else {
                Lexing { tokens: Seq::empty(), end: from, fault: lex_at(text, from) }
            }
        },
        fault => Lexing { tokens: Seq::empty(), end: from, fault },
    }
}

/// The spans of `tokens` tile the text from offset `from` up to offset `to`:
/// the first span starts at `from`, each span is not empty and ends where
/// the next one starts, and the last one ends at `to`.
pub open spec fn tiles(tokens: Seq<TokenView>, text: Seq<char>, from: int, to: int) -> bool
    decreases tokens.len(),
{
    if tokens.len() == 0 {
        from == to
    } else {
        let cut = tokens[0].position.end.absolute as int;
        &&& from < cut <= to
        &&& tokens[0].position == span(text, from, cut)
        &&& tiles(tokens.drop_first(), text, cut, to)
    }
}

/// The tokens that lexing yields tile the text up to where lexing stops;
/// that is the end of the text where lexing stops for want of input.
pub proof fn lemma_lexing_tiles(text: Seq<char>, from: int)
    requires
        0 <= from <= text.len() <= usize::MAX,
    ensures
        from <= lex_from(text, from).end <= text.len(),
        tiles(lex_from(text, from).tokens, text, from, lex_from(text, from).end),
        lex_from(text, from).fault is Fault,
        lex_from(text, from).fault == lex_at(text, lex_from(text, from).end),
        lex_from(text, from).fault->error == LexErrorKind::InputExhausted <==> lex_from(
            text,
            from,
        ).end == text.len(),
    decreases text.len() - from,
{
    lemma_lex_at_advances(text, from);
    match lex_at(text, from) {
        Lexed::Token { kind, end } => {
            lemma_lexing_tiles(text, end);
            let rest = lex_from(text, end);
            let token = TokenView { kind, position: span(text, from, end) };
            assert((seq![token] + rest.tokens).drop_first() =~= rest.tokens);
        },
        Lexed::Fault { .. } => {},
    }
}

/// In a tiling, each span ends where the next one starts, and no span is
/// empty.
pub proof fn lemma_tiles_adjacent(
    tokens: Seq<TokenView>,
    text: Seq<char>,
    from: int,
    to: int,
    i: int,
)
    requires
        tiles(tokens, text, from, to),
        0 <= from,
        to <= text.len() <= usize::MAX,
        0 <= i < tokens.len(),
    ensures
        from <= tokens[i].position.start.absolute < tokens[i].position.end.absolute <= to,
        i == 0 ==> tokens[i].position.start.absolute == from,
        i + 1 < tokens.len() ==> tokens[i].position.end == tokens[i + 1].position.start,
        i + 1 == tokens.len() ==> tokens[i].position.end.absolute == to,
    decreases tokens.len(),
{
    let cut = tokens[0].position.end.absolute as int;
    if i == 0 {
        if tokens.len() > 1 {
            assert(tiles(tokens.drop_first(), text, cut, to));
            assert(tokens.drop_first()[0] == tokens[1]);
        } else {
            assert(tokens.drop_first().len() == 0);
            assert(tiles(tokens.drop_first(), text, cut, to));
        }
    } else {
        lemma_tiles_adjacent(tokens.drop_first(), text, cut, to, i - 1);
        assert(tokens.drop_first()[i - 1] == tokens[i]);
        if i + 1 < tokens.len() {
            assert(tokens.drop_first()[i] == tokens[i + 1]);
        }
    }
}

/// The text that the spans of `tokens` cut out of `text`, one span after
/// the other.
pub open spec fn lexemes(tokens: Seq<TokenView>, text: Seq<char>) -> Seq<char>
    decreases tokens.len(),
{
    if tokens.len() == 0 {
        Seq::empty()
    } else {
        text.subrange(
            tokens[0].position.start.absolute as int,
            tokens[0].position.end.absolute as int,
        ) + lexemes(tokens.drop_first(), text)
    }
}

/// Nothing is lost: the lexemes of tokens that tile a stretch of the text,
/// put together in their order, are that stretch of the text.
pub proof fn lemma_tiles_give_back_the_text(
    tokens: Seq<TokenView>,
    text: Seq<char>,
    from: int,
    to: int,
)
    requires
        tiles(tokens, text, from, to),
        0 <= from,
        to <= text.len() <= usize::MAX,
    ensures
        lexemes(tokens, text) == text.subrange(from, to),
    decreases tokens.len(),
{
    if tokens.len() == 0 {
        assert(text.subrange(from, to) =~= Seq::empty());
    } else {
        let cut = tokens[0].position.end.absolute as int;
        lemma_tiles_give_back_the_text(tokens.drop_first(), text, cut, to);
        assert(text.subrange(from, cut) + text.subrange(cut, to) =~= text.subrange(from, to));
    }
}

/// A reserved word, lexed on its own, is one keyword token of its kind that
/// spans the whole word.
pub proof fn lemma_keyword_lexes(keyword: Keyword)
    ensures
        lex_at(spelling(keyword), 0) == (Lexed::Token {
            kind: KindView::Keyword(keyword),
            end: spelling(keyword).len() as int,
        }),
        lex_from(spelling(keyword), 0).tokens == seq![
            TokenView {
                kind: KindView::Keyword(keyword),
                position: span(spelling(keyword), 0, spelling(keyword).len() as int),
            },
        ],
{
    let word = spelling(keyword);
    lemma_spelling_is_identifier(keyword);
    lemma_keyword_of(keyword);
    lemma_word_lexes(word);
}

/// A word that is spelled as an identifier and is not reserved, lexed on its
/// own, is one identifier token that carries the word and spans all of it.
pub proof fn lemma_identifier_lexes(word: Seq<char>)
    requires
        identifier_spelling(word),
        !reserved(word),
    ensures
        lex_at(word, 0) == (Lexed::Token {
            kind: KindView::Identifier(word),
            end: word.len() as int,
        }),
        lex_from(word, 0).tokens == seq![
            TokenView {
                kind: KindView::Identifier(word),
                position: span(word, 0, word.len() as int),
            },
        ],
{
    lemma_word_lexes(word);
}

/// A word that is spelled as an identifier, lexed on its own, is one token:
/// the reserved word that it spells, or else an identifier.
pub proof fn lemma_word_lexes(word: Seq<char>)
    requires
        identifier_spelling(word),
    ensures
        lex_at(word, 0) == (Lexed::Token { kind: classify(word), end: word.len() as int }),
        lex_from(word, 0).tokens == seq![
            TokenView { kind: classify(word), position: span(word, 0, word.len() as int) },
        ],
{
    let len = word.len() as int;
    assert(closes_run(word, 0, CharClass::IdentTail, len)) by {
        assert forall|i: int| 0 <= i < len implies CharClass::IdentTail.holds(
            #[trigger] word[i],
        ) by {
            if i > 0 {
                assert(ident_tail(word[i]));
            }
        }
    }
    lemma_run_end_unique(word, 0, CharClass::IdentTail, len);
    assert(word.subrange(0, len) =~= word);
    assert(lex_from(word, len).tokens =~= Seq::empty());
    assert(seq![TokenView { kind: classify(word), position: span(word, 0, len) }] + Seq::empty()
        =~= seq![TokenView { kind: classify(word), position: span(word, 0, len) }]);
}

/// A literal made of a digit and then digits and `_` separators, whose
/// digits denote a number that fits in 16 bits, lexes to that number: the
/// separators are left out and the digits are read in base 10.
pub proof fn lemma_literal_round_trip(literal: Seq<char>)
    requires
        literal.len() > 0,
        decimal_digit(literal[0]),
        forall|i: int|
            0 <= i < literal.len() ==> decimal_digit(#[trigger] literal[i]) || literal[i] == '_',
        decimal_value(without_separators(literal)) <= u16::MAX,
    ensures
        lex_at(literal, 0) == (Lexed::Token {
            kind: KindView::IntegerLiteral(
                IntegerLiteralKind::Decimal,
                decimal_value(without_separators(literal)) as u16,
            ),
            end: literal.len() as int,
        }),
{
    let len = literal.len() as int;
    assert(closes_run(literal, 0, CharClass::LiteralBody, len));
    lemma_run_end_unique(literal, 0, CharClass::LiteralBody, len);
    assert(literal.subrange(0, len) =~= literal);
}

} // verus!
