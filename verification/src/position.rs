use vstd::prelude::*;

verus! {

/// A place in the source text: the offset from its start, counted in scalar
/// values, and the line and column at that offset. All three are zero-based.
#[derive(Debug, Clone, Copy, PartialEq, Eq, Structural)]
pub struct TextPosition {
    pub absolute: usize,
    pub line: usize,
    pub column: usize,
}

/// The span of a token: the half-open range of the text from `start` up to
/// `end`.
#[derive(Debug, Clone, Copy, PartialEq, Eq, Structural)]
pub struct TokenPosition {
    pub start: TextPosition,
    pub end: TextPosition,
}

/// The number of line breaks among the first `n` characters of `text`.
pub open spec fn line_at(text: Seq<char>, n: int) -> nat
    decreases n,
{
    if n <= 0 || n > text.len() {
        0
    } else if text[n - 1] == '\n' {
        line_at(text, n - 1) + 1
    } else {
        line_at(text, n - 1)
    }
}

/// The number of characters between the last line break among the first `n`
/// characters of `text` and offset `n`.
pub open spec fn column_at(text: Seq<char>, n: int) -> nat
    decreases n,
{
    if n <= 0 || n > text.len() {
        0
    } else if text[n - 1] == '\n' {
        0
    } else {
        column_at(text, n - 1) + 1
    }
}

/// The place at offset `n` of `text`.
pub open spec fn place(text: Seq<char>, n: int) -> TextPosition {
    TextPosition {
        absolute: n as usize,
        line: line_at(text, n) as usize,
        column: column_at(text, n) as usize,
    }
}

/// The span of `text` from offset `from` up to offset `to`.
pub open spec fn span(text: Seq<char>, from: int, to: int) -> TokenPosition {
    TokenPosition { start: place(text, from), end: place(text, to) }
}

/// `position` is the place at offset `n` of `text`.
pub open spec fn locates(position: TextPosition, text: Seq<char>, n: int) -> bool {
    &&& 0 <= n <= text.len()
    &&& position.absolute == n
    &&& position.line == line_at(text, n)
    &&& position.column == column_at(text, n)
}

/// Line and column never exceed the offset they are computed for.
pub proof fn lemma_line_column_bounded(text: Seq<char>, n: int)
    ensures
        line_at(text, n) <= n || n < 0,
        column_at(text, n) <= n || n < 0,
        line_at(text, n) + column_at(text, n) <= n || n < 0,
    decreases n,
{
    if n > 0 && n <= text.len() {
        lemma_line_column_bounded(text, n - 1);
    }
}

/// The line number does not fall as the offset grows.
pub proof fn lemma_line_monotonic(text: Seq<char>, from: int, to: int)
    requires
        0 <= from <= to <= text.len(),
    ensures
        line_at(text, from) <= line_at(text, to),
    decreases to - from,
{
    if from < to {
        lemma_line_monotonic(text, from, to - 1);
    }
}

impl TextPosition {
    /// The start of every text.
    pub fn origin() -> (position: TextPosition)
        ensures
            position == (TextPosition { absolute: 0, line: 0, column: 0 }),
    {
        TextPosition { absolute: 0, line: 0, column: 0 }
    }

    /// The place one character further on, where that character is `c`: a
    /// line feed starts the next line at column 0, any other character
    /// moves one column to the right.
    pub fn after(self, c: char) -> (next: TextPosition)
        requires
            self.absolute < usize::MAX,
            self.line < usize::MAX,
            self.column < usize::MAX,
        ensures
            next.absolute == self.absolute + 1,
            next.line == if c == '\n' { self.line + 1 } else { self.line as int },
            next.column == if c == '\n' { 0 } else { self.column + 1 },
    {
        if c == '\n' {
            TextPosition { absolute: self.absolute + 1, line: self.line + 1, column: 0 }
        } else {
            TextPosition { absolute: self.absolute + 1, line: self.line, column: self.column + 1 }
        }
    }
}

impl TokenPosition {
    /// The span from `start` up to `end`.
    pub fn new(start: TextPosition, end: TextPosition) -> (span: TokenPosition)
        ensures
            span == (TokenPosition { start, end }),
    {
        TokenPosition { start, end }
    }
}

} // verus!
