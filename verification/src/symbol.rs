use vstd::prelude::*;

use crate::token::TokenKind;

verus! {

/// The number of punctuation and operator symbols.
pub const SYMBOLS: usize = 40;

/// The spelling of the symbol at `index` of the table. The table is ordered:
/// where one symbol is the beginning of another, the longer one comes first.
pub open spec fn symbol_pattern(index: int) -> Seq<char> {
    if index == 0 {
        seq!['<', '<', '=']
    } else if index == 1 {
        seq!['>', '>', '=']
    } else if index == 2 {
        seq!['<', '<']
    } else if index == 3 {
        seq!['>', '>']
    } else if index == 4 {
        seq!['+', '=']
    } else if index == 5 {
        seq!['-', '=']
    } else if index == 6 {
        seq!['*', '=']
    } else if index == 7 {
        seq!['/', '=']
    } else if index == 8 {
        seq!['%', '=']
    } else if index == 9 {
        seq!['&', '=']
    } else if index == 10 {
        seq!['|', '=']
    } else if index == 11 {
        seq!['^', '=']
    } else if index == 12 {
        seq!['=', '=']
    } else if index == 13 {
        seq!['!', '=']
    } else if index == 14 {
        seq!['<', '=']
    } else if index == 15 {
        seq!['>', '=']
    } else if index == 16 {
        seq!['&', '&']
    } else if index == 17 {
        seq!['|', '|']
    } else if index == 18 {
        seq!['+']
    } else if index == 19 {
        seq!['-']
    } else if index == 20 {
        seq!['!']
    } else if index == 21 {
        seq!['&']
    } else if index == 22 {
        seq!['|']
    } else if index == 23 {
        seq!['^']
    } else if index == 24 {
        seq!['=']
    } else if index == 25 {
        seq!['<']
    } else if index == 26 {
        seq!['>']
    } else if index == 27 {
        seq!['*']
    } else if index == 28 {
        seq!['/']
    } else if index == 29 {
        seq!['%']
    } else if index == 30 {
        seq!['.']
    } else if index == 31 {
        seq!['[']
    } else if index == 32 {
        seq![']']
    } else if index == 33 {
        seq!['(']
    } else if index == 34 {
        seq![')']
    } else if index == 35 {
        seq!['{']
    } else if index == 36 {
        seq!['}']
    } else if index == 37 {
        seq![':']
    } else if index == 38 {
        seq![';']
    } else {
        seq![',']
    }
}

/// The kind of token that the symbol at `index` of the table yields.
pub open spec fn symbol_kind(index: int) -> TokenKind {
    if index == 0 {
        TokenKind::LeftChevronEqual
    } else if index == 1 {
        TokenKind::RightChevronEqual
    } else if index == 2 {
        TokenKind::LeftChevron
    } else if index == 3 {
        TokenKind::RightChevron
    } else if index == 4 {
        TokenKind::PlusEqual
    } else if index == 5 {
        TokenKind::MinusEqual
    } else if index == 6 {
        TokenKind::AsteriskEqual
    } else if index == 7 {
        TokenKind::ForwardSlashEqual
    } else if index == 8 {
        TokenKind::PercentEqual
    } else if index == 9 {
        TokenKind::AmpersandEqual
    } else if index == 10 {
        TokenKind::BarEqual
    } else if index == 11 {
        TokenKind::CaretEqual
    } else if index == 12 {
        TokenKind::DoubleEqual
    } else if index == 13 {
        TokenKind::BangEqual
    } else if index == 14 {
        TokenKind::LessThanEqual
    } else if index == 15 {
        TokenKind::GreaterThanEqual
    } else if index == 16 {
        TokenKind::DoubleAmpersand
    } else if index == 17 {
        TokenKind::DoubleBar
    } else if index == 18 {
        TokenKind::Plus
    } else if index == 19 {
        TokenKind::Minus
    } else if index == 20 {
        TokenKind::Bang
    } else if index == 21 {
        TokenKind::Ampersand
    } else if index == 22 {
        TokenKind::Bar
    } else if index == 23 {
        TokenKind::Caret
    } else if index == 24 {
        TokenKind::Equal
    } else if index == 25 {
        TokenKind::LessThan
    } else if index == 26 {
        TokenKind::GreaterThan
    } else if index == 27 {
        TokenKind::Asterisk
    } else if index == 28 {
        TokenKind::ForwardSlash
    } else if index == 29 {
        TokenKind::Percent
    } else if index == 30 {
        TokenKind::Dot
    } else if index == 31 {
        TokenKind::LeftBracket
    } else if index == 32 {
        TokenKind::RightBracket
    } else if index == 33 {
        TokenKind::LeftParenthesis
    } else if index == 34 {
        TokenKind::RightParenthesis
    } else if index == 35 {
        TokenKind::LeftBrace
    } else if index == 36 {
        TokenKind::RightBrace
    } else if index == 37 {
        TokenKind::Colon
    } else if index == 38 {
        TokenKind::SemiColon
    } else {
        TokenKind::Comma
    }
}

/// `pattern` stands in `text` at offset `from`.
pub open spec fn stands_at(text: Seq<char>, from: int, pattern: Seq<char>) -> bool {
    &&& 0 <= from
    &&& from + pattern.len() <= text.len()
    &&& text.subrange(from, from + pattern.len()) == pattern
}

/// The index of the first symbol, at or after `index` in the table, that
/// stands in `text` at `from`; `SYMBOLS` where none does.
pub open spec fn first_symbol(text: Seq<char>, from: int, index: int) -> int
    decreases SYMBOLS - index,
{
    if index < 0 || index >= SYMBOLS {
        SYMBOLS as int
    } else if stands_at(text, from, symbol_pattern(index)) {
        index
    } else {
        first_symbol(text, from, index + 1)
    }
}

/// What `first_symbol` finds stands in the text, and nothing before it in
/// the table does.
pub proof fn lemma_first_symbol(text: Seq<char>, from: int, index: int)
    requires
        0 <= index <= SYMBOLS,
    ensures
        index <= first_symbol(text, from, index) <= SYMBOLS,
        first_symbol(text, from, index) < SYMBOLS ==> stands_at(
            text,
            from,
            symbol_pattern(first_symbol(text, from, index)),
        ),
        forall|i: int|
            index <= i < first_symbol(text, from, index) ==> !stands_at(
                text,
                from,
                #[trigger] symbol_pattern(i),
            ),
    decreases SYMBOLS - index,
{
    if index < SYMBOLS && !stands_at(text, from, symbol_pattern(index)) {
        lemma_first_symbol(text, from, index + 1);
    }
}

/// Every symbol is one to three characters long, and none is shorter than
/// one that follows it in the table.
pub proof fn lemma_symbols_by_length(i: int, j: int)
    requires
        0 <= i <= j < SYMBOLS,
    ensures
        1 <= symbol_pattern(j).len() <= symbol_pattern(i).len() <= 3,
{
}

/// No symbol starts with a character that starts whitespace, a literal or
/// an identifier.
pub proof fn lemma_symbol_heads(index: int)
    requires
        0 <= index < SYMBOLS,
    ensures
        symbol_pattern(index).len() > 0,
        !crate::lexeme::whitespace(symbol_pattern(index)[0]),
        !crate::lexeme::decimal_digit(symbol_pattern(index)[0]),
        !crate::lexeme::ident_head(symbol_pattern(index)[0]),
        symbol_pattern(index)[0] != '\'',
        symbol_pattern(index)[0] != '"',
        symbol_kind(index).is_plain(),
{
}

/// At the end of the text, and behind it, no symbol stands.
pub proof fn lemma_no_symbol_at_end(text: Seq<char>, from: int)
    requires
        from >= text.len(),
    ensures
        first_symbol(text, from, 0) == SYMBOLS,
{
    lemma_first_symbol(text, from, 0);
    let found = first_symbol(text, from, 0);
    if found < SYMBOLS {
        lemma_symbols_by_length(found, found);
    }
}

/// Longest match: of all the symbols that stand at a place, the one that is
/// found first is the longest.
pub proof fn lemma_longest_symbol(text: Seq<char>, from: int, other: int)
    requires
        0 <= other < SYMBOLS,
        stands_at(text, from, symbol_pattern(other)),
    ensures
        0 <= first_symbol(text, from, 0) <= other,
        stands_at(text, from, symbol_pattern(first_symbol(text, from, 0))),
        symbol_pattern(other).len() <= symbol_pattern(first_symbol(text, from, 0)).len(),
{
    lemma_first_symbol(text, from, 0);
    lemma_symbols_by_length(first_symbol(text, from, 0), other);
}

/// The symbol at `index` of the table: its spelling and the kind of token it
/// yields.
pub fn symbol(index: usize) -> (entry: (&'static str, TokenKind))
    requires
        index < SYMBOLS,
    ensures
        entry.0@ == symbol_pattern(index as int),
        entry.1 == symbol_kind(index as int),
{
    proof {
        reveal_strlit("<<=");
        reveal_strlit(">>=");
        reveal_strlit("<<");
        reveal_strlit(">>");
        reveal_strlit("+=");
        reveal_strlit("-=");
        reveal_strlit("*=");
        reveal_strlit("/=");
        reveal_strlit("%=");
        reveal_strlit("&=");
        reveal_strlit("|=");
        reveal_strlit("^=");
        reveal_strlit("==");
        reveal_strlit("!=");
        reveal_strlit("<=");
        reveal_strlit(">=");
        reveal_strlit("&&");
        reveal_strlit("||");
        reveal_strlit("+");
        reveal_strlit("-");
        reveal_strlit("!");
        reveal_strlit("&");
        reveal_strlit("|");
        reveal_strlit("^");
        reveal_strlit("=");
        reveal_strlit("<");
        reveal_strlit(">");
        reveal_strlit("*");
        reveal_strlit("/");
        reveal_strlit("%");
        reveal_strlit(".");
        reveal_strlit("[");
        reveal_strlit("]");
        reveal_strlit("(");
        reveal_strlit(")");
        reveal_strlit("{");
        reveal_strlit("}");
        reveal_strlit(":");
        reveal_strlit(";");
        reveal_strlit(",");
    }
    match index {
        0 => ("<<=", TokenKind::LeftChevronEqual),
        1 => (">>=", TokenKind::RightChevronEqual),
        2 => ("<<", TokenKind::LeftChevron),
        3 => (">>", TokenKind::RightChevron),
        4 => ("+=", TokenKind::PlusEqual),
        5 => ("-=", TokenKind::MinusEqual),
        6 => ("*=", TokenKind::AsteriskEqual),
        7 => ("/=", TokenKind::ForwardSlashEqual),
        8 => ("%=", TokenKind::PercentEqual),
        9 => ("&=", TokenKind::AmpersandEqual),
        10 => ("|=", TokenKind::BarEqual),
        11 => ("^=", TokenKind::CaretEqual),
        12 => ("==", TokenKind::DoubleEqual),
        13 => ("!=", TokenKind::BangEqual),
        14 => ("<=", TokenKind::LessThanEqual),
        15 => (">=", TokenKind::GreaterThanEqual),
        16 => ("&&", TokenKind::DoubleAmpersand),
        17 => ("||", TokenKind::DoubleBar),
        18 => ("+", TokenKind::Plus),
        19 => ("-", TokenKind::Minus),
        20 => ("!", TokenKind::Bang),
        21 => ("&", TokenKind::Ampersand),
        22 => ("|", TokenKind::Bar),
        23 => ("^", TokenKind::Caret),
        24 => ("=", TokenKind::Equal),
        25 => ("<", TokenKind::LessThan),
        26 => (">", TokenKind::GreaterThan),
        27 => ("*", TokenKind::Asterisk),
        28 => ("/", TokenKind::ForwardSlash),
        29 => ("%", TokenKind::Percent),
        30 => (".", TokenKind::Dot),
        31 => ("[", TokenKind::LeftBracket),
        32 => ("]", TokenKind::RightBracket),
        33 => ("(", TokenKind::LeftParenthesis),
        34 => (")", TokenKind::RightParenthesis),
        35 => ("{", TokenKind::LeftBrace),
        36 => ("}", TokenKind::RightBrace),
        37 => (":", TokenKind::Colon),
        38 => (";", TokenKind::SemiColon),
        _ => (",", TokenKind::Comma),
    }
}

} // verus!
