use vstd::prelude::*;

use crate::text::spells;
use crate::token::Keyword;

verus! {

/// An ASCII whitespace character: space, tab, line feed, form feed or
/// carriage return.
pub open spec fn whitespace(c: char) -> bool {
    c == ' ' || c == '\t' || c == '\n' || c == '\x0C' || c == '\r'
}

/// An ASCII decimal digit.
pub open spec fn decimal_digit(c: char) -> bool {
    '0' <= c <= '9'
}

/// A character that may start an identifier: an ASCII letter or `_`.
pub open spec fn ident_head(c: char) -> bool {
    ('a' <= c <= 'z') || ('A' <= c <= 'Z') || c == '_'
}

/// A character that may continue an identifier.
pub open spec fn ident_tail(c: char) -> bool {
    ident_head(c) || decimal_digit(c)
}

/// The classes of characters that a lexeme may be a run of.
#[derive(Debug, Clone, Copy, PartialEq, Eq, Structural)]
pub enum CharClass {
    /// ASCII whitespace.
    Whitespace,
    /// Decimal digits and the separator `_`: the body of an integer literal.
    LiteralBody,
    /// Letters, digits and `_`: the body of an identifier.
    IdentTail,
}

impl CharClass {
    /// `c` belongs to the class.
    pub open spec fn holds(self, c: char) -> bool {
        match self {
            CharClass::Whitespace => whitespace(c),
            CharClass::LiteralBody => decimal_digit(c) || c == '_',
            CharClass::IdentTail => ident_tail(c),
        }
    }
}

/// Where the maximal run of characters of `class` that starts at `from` ends:
/// the first offset at or after `from` that is the end of `text` or holds a
/// character outside the class.
pub open spec fn run_end(text: Seq<char>, from: int, class: CharClass) -> int
    decreases text.len() - from,
{
    if 0 <= from < text.len() && class.holds(text[from]) {
        run_end(text, from + 1, class)
    } else {
        from
    }
}

/// `end` closes the maximal run of `class` that starts at `from`.
pub open spec fn closes_run(text: Seq<char>, from: int, class: CharClass, end: int) -> bool {
    &&& from <= end <= text.len()
    &&& forall|i: int| from <= i < end ==> class.holds(#[trigger] text[i])
    &&& end < text.len() ==> !class.holds(text[end])
}

/// The end of a run is where the run closes.
pub proof fn lemma_run_end_closes(text: Seq<char>, from: int, class: CharClass)
    requires
        0 <= from <= text.len(),
    ensures
        closes_run(text, from, class, run_end(text, from, class)),
    decreases text.len() - from,
{
    if from < text.len() && class.holds(text[from]) {
        lemma_run_end_closes(text, from + 1, class);
    }
}

/// A run closes at one offset only.
pub proof fn lemma_run_end_unique(text: Seq<char>, from: int, class: CharClass, end: int)
    requires
        0 <= from <= text.len(),
        closes_run(text, from, class, end),
    ensures
        end == run_end(text, from, class),
    decreases text.len() - from,
{
    if from < text.len() && class.holds(text[from]) {
        lemma_run_end_unique(text, from + 1, class, end);
    }
}

/// The offset of the first `quote` at or after `from`, or the length of
/// `text` where there is none.
pub open spec fn find_quote(text: Seq<char>, from: int, quote: char) -> int
    decreases text.len() - from,
{
    if 0 <= from < text.len() && text[from] != quote {
        find_quote(text, from + 1, quote)
    } else {
        from
    }
}

/// No `quote` stands between `from` and the offset that `find_quote` gives.
pub proof fn lemma_find_quote(text: Seq<char>, from: int, quote: char)
    requires
        0 <= from <= text.len(),
    ensures
        from <= find_quote(text, from, quote) <= text.len(),
        forall|i: int| from <= i < find_quote(text, from, quote) ==> #[trigger] text[i] != quote,
        find_quote(text, from, quote) < text.len() ==> text[find_quote(text, from, quote)]
            == quote,
    decreases text.len() - from,
{
    if from < text.len() && text[from] != quote {
        lemma_find_quote(text, from + 1, quote);
    }
}

/// The first `quote` at or after `from` is found at one offset only.
pub proof fn lemma_find_quote_unique(text: Seq<char>, from: int, quote: char, at: int)
    requires
        0 <= from <= at <= text.len(),
        forall|i: int| from <= i < at ==> #[trigger] text[i] != quote,
        at < text.len() ==> text[at] == quote,
    ensures
        find_quote(text, from, quote) == at,
    decreases text.len() - from,
{
    if from < at {
        lemma_find_quote_unique(text, from + 1, quote, at);
    }
}

/// The digits of a literal: the run without its `_` separators.
pub open spec fn without_separators(run: Seq<char>) -> Seq<char> {
    run.filter(|c: char| c != '_')
}

/// The number that a decimal digit stands for.
pub open spec fn digit_value(c: char) -> int {
    c as int - '0' as int
}

/// The number that a string of decimal digits denotes in base 10.
pub open spec fn decimal_value(digits: Seq<char>) -> int
    decreases digits.len(),
{
    if digits.len() == 0 {
        0
    } else {
        decimal_value(digits.drop_last()) * 10 + digit_value(digits.last())
    }
}

/// The value of an integer literal: its digits, separators removed, read in
/// base 10.
pub open spec fn literal_value(run: Seq<char>) -> int {
    decimal_value(without_separators(run))
}

/// One more character at the end of a literal: a separator leaves the value
/// as it is, a digit shifts it by one decimal place.
pub proof fn lemma_literal_value_push(run: Seq<char>, c: char)
    ensures
        literal_value(run.push(c)) == if c == '_' {
            literal_value(run)
        } else {
            literal_value(run) * 10 + digit_value(c)
        },
{
    let keep = |c: char| c != '_';
    assert(run.push(c).drop_last() =~= run);
    assert(run.push(c).last() == c);
    assert(run.push(c).filter(keep) == if keep(c) {
        run.filter(keep).push(c)
    } else {
        run.filter(keep)
    }) by {
        reveal_with_fuel(Seq::filter, 2);
    }
    if c != '_' {
        assert(run.filter(keep).push(c).drop_last() =~= run.filter(keep));
    }
}

/// The value of a literal made of digits and separators is not negative, and
/// does not shrink as the literal grows.
pub proof fn lemma_literal_value_grows(text: Seq<char>, from: int, mid: int, to: int)
    requires
        0 <= from <= mid <= to <= text.len(),
        forall|i: int| from <= i < to ==> CharClass::LiteralBody.holds(#[trigger] text[i]),
    ensures
        0 <= literal_value(text.subrange(from, mid)) <= literal_value(text.subrange(from, to)),
    decreases to - from,
{
    if from == to {
        assert(text.subrange(from, to) =~= Seq::<char>::empty());
        assert(without_separators(Seq::<char>::empty()) =~= Seq::<char>::empty());
    } else {
        lemma_literal_value_grows(text, from, if mid == to { to - 1 } else { mid }, to - 1);
        assert(text.subrange(from, to) =~= text.subrange(from, to - 1).push(text[to - 1]));
        lemma_literal_value_push(text.subrange(from, to - 1), text[to - 1]);
    }
}

/// How a reserved word is spelled.
pub open spec fn spelling(keyword: Keyword) -> Seq<char> {
    match keyword {
        Keyword::U8 => seq!['u', '8'],
        Keyword::I8 => seq!['i', '8'],
        Keyword::U16 => seq!['u', '1', '6'],
        Keyword::I16 => seq!['i', '1', '6'],
        Keyword::Fn => seq!['f', 'n'],
        Keyword::SizeOf => seq!['s', 'i', 'z', 'e', 'o', 'f'],
        Keyword::Type => seq!['t', 'y', 'p', 'e'],
        Keyword::Const => seq!['c', 'o', 'n', 's', 't'],
        Keyword::Var => seq!['v', 'a', 'r'],
        Keyword::If => seq!['i', 'f'],
        Keyword::Else => seq!['e', 'l', 's', 'e'],
        Keyword::While => seq!['w', 'h', 'i', 'l', 'e'],
        Keyword::For => seq!['f', 'o', 'r'],
        Keyword::Switch => seq!['s', 'w', 'i', 't', 'c', 'h'],
        Keyword::Case => seq!['c', 'a', 's', 'e'],
        Keyword::Default => seq!['d', 'e', 'f', 'a', 'u', 'l', 't'],
        Keyword::Break => seq!['b', 'r', 'e', 'a', 'k'],
        Keyword::Continue => seq!['c', 'o', 'n', 't', 'i', 'n', 'u', 'e'],
        Keyword::Return => seq!['r', 'e', 't', 'u', 'r', 'n'],
        Keyword::Extern => seq!['e', 'x', 't', 'e', 'r', 'n'],
        Keyword::Struct => seq!['s', 't', 'r', 'u', 'c', 't'],
        Keyword::Union => seq!['u', 'n', 'i', 'o', 'n'],
        Keyword::Enum => seq!['e', 'n', 'u', 'm'],
    }
}

/// `text` is the spelling of some reserved word.
pub open spec fn reserved(text: Seq<char>) -> bool {
    exists|keyword: Keyword| spelling(keyword) == text
}

/// The reserved word that `text` spells, if it spells one.
pub open spec fn keyword_of(text: Seq<char>) -> Option<Keyword> {
    if reserved(text) {
        Some(choose|keyword: Keyword| spelling(keyword) == text)
    } else {
        None
    }
}

/// `text` is spelled as an identifier is: a head character, then tail
/// characters only.
pub open spec fn identifier_spelling(text: Seq<char>) -> bool {
    &&& text.len() > 0
    &&& ident_head(text[0])
    &&& forall|i: int| 0 < i < text.len() ==> ident_tail(#[trigger] text[i])
}

/// The spelling of one reserved word is the spelling of no other.
pub proof fn lemma_spelling_injective(a: Keyword, b: Keyword)
    requires
        spelling(a) == spelling(b),
    ensures
        a == b,
{
    assert(spelling(a).len() == spelling(b).len());
    assert(spelling(a)[0] == spelling(b)[0]);
    assert(spelling(a)[1] == spelling(b)[1]);
    if spelling(a).len() > 2 {
        assert(spelling(a)[2] == spelling(b)[2]);
    }
}

/// A reserved word is found by its spelling, and by nothing else.
pub proof fn lemma_keyword_of(keyword: Keyword)
    ensures
        keyword_of(spelling(keyword)) == Some(keyword),
{
    let found = choose|k: Keyword| spelling(k) == spelling(keyword);
    lemma_spelling_injective(found, keyword);
}

/// Every reserved word is spelled as an identifier is.
pub proof fn lemma_spelling_is_identifier(keyword: Keyword)
    ensures
        identifier_spelling(spelling(keyword)),
{
}

/// The reserved word that `word` spells, if it spells one.
pub fn lookup_keyword(word: &Vec<char>) -> (found: Option<Keyword>)
    ensures
        found == keyword_of(word@),
{
    proof {
        reveal_strlit("u8");
        assert("u8"@ =~= spelling(Keyword::U8));
        reveal_strlit("i8");
        assert("i8"@ =~= spelling(Keyword::I8));
        reveal_strlit("u16");
        assert("u16"@ =~= spelling(Keyword::U16));
        reveal_strlit("i16");
        assert("i16"@ =~= spelling(Keyword::I16));
        reveal_strlit("fn");
        assert("fn"@ =~= spelling(Keyword::Fn));
        reveal_strlit("sizeof");
        assert("sizeof"@ =~= spelling(Keyword::SizeOf));
        reveal_strlit("type");
        assert("type"@ =~= spelling(Keyword::Type));
        reveal_strlit("const");
        assert("const"@ =~= spelling(Keyword::Const));
        reveal_strlit("var");
        assert("var"@ =~= spelling(Keyword::Var));
        reveal_strlit("if");
        assert("if"@ =~= spelling(Keyword::If));
        reveal_strlit("else");
        assert("else"@ =~= spelling(Keyword::Else));
        reveal_strlit("while");
        assert("while"@ =~= spelling(Keyword::While));
        reveal_strlit("for");
        assert("for"@ =~= spelling(Keyword::For));
        reveal_strlit("switch");
        assert("switch"@ =~= spelling(Keyword::Switch));
        reveal_strlit("case");
        assert("case"@ =~= spelling(Keyword::Case));
        reveal_strlit("default");
        assert("default"@ =~= spelling(Keyword::Default));
        reveal_strlit("break");
        assert("break"@ =~= spelling(Keyword::Break));
        reveal_strlit("continue");
        assert("continue"@ =~= spelling(Keyword::Continue));
        reveal_strlit("return");
        assert("return"@ =~= spelling(Keyword::Return));
        reveal_strlit("extern");
        assert("extern"@ =~= spelling(Keyword::Extern));
        reveal_strlit("struct");
        assert("struct"@ =~= spelling(Keyword::Struct));
        reveal_strlit("union");
        assert("union"@ =~= spelling(Keyword::Union));
        reveal_strlit("enum");
        assert("enum"@ =~= spelling(Keyword::Enum));
    }
    let found = if spells(word, "u8") {
            Some(Keyword::U8)
        } else if spells(word, "i8") {
            Some(Keyword::I8)
        } else if spells(word, "u16") {
            Some(Keyword::U16)
        } else if spells(word, "i16") {
            Some(Keyword::I16)
        } else if spells(word, "fn") {
            Some(Keyword::Fn)
        } else if spells(word, "sizeof") {
            Some(Keyword::SizeOf)
        } else if spells(word, "type") {
            Some(Keyword::Type)
        } else if spells(word, "const") {
            Some(Keyword::Const)
        } else if spells(word, "var") {
            Some(Keyword::Var)
        } else if spells(word, "if") {
            Some(Keyword::If)
        } else if spells(word, "else") {
            Some(Keyword::Else)
        } else if spells(word, "while") {
            Some(Keyword::While)
        } else if spells(word, "for") {
            Some(Keyword::For)
        } else if spells(word, "switch") {
            Some(Keyword::Switch)
        } else if spells(word, "case") {
            Some(Keyword::Case)
        } else if spells(word, "default") {
            Some(Keyword::Default)
        } else if spells(word, "break") {
            Some(Keyword::Break)
        } else if spells(word, "continue") {
            Some(Keyword::Continue)
        } else if spells(word, "return") {
            Some(Keyword::Return)
        } else if spells(word, "extern") {
            Some(Keyword::Extern)
        } else if spells(word, "struct") {
            Some(Keyword::Struct)
        } else if spells(word, "union") {
            Some(Keyword::Union)
        } else if spells(word, "enum") {
            Some(Keyword::Enum)
        } else {
            None
        };
    proof {
        match found {
            Some(keyword) => {
                assert(spelling(keyword) == word@);
                lemma_keyword_of(keyword);
            },
            None => {
                assert forall|keyword: Keyword| spelling(keyword) != word@ by {}
            },
        }
    }
    found
}

} // verus!
