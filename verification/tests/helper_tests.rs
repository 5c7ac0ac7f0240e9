use opal::lexeme::{lookup_keyword, CharClass};
use opal::lexer::{is_ident_head, is_ident_tail, is_opal_decimal_digit, is_whitespace};
use opal::symbol::{symbol, SYMBOLS};
use opal::text::{collect_string, push_decimal, spells};
use opal::{Keyword, TextPosition, TokenKind, TokenPosition};

fn chars(text: &str) -> Vec<char> {
    text.chars().collect()
}

#[test]
fn origin_is_all_zero() {
    assert_eq!(
        TextPosition::origin(),
        TextPosition { absolute: 0, line: 0, column: 0 }
    );
}

#[test]
fn after_moves_one_column_or_one_line() {
    let place = TextPosition { absolute: 7, line: 2, column: 4 };
    assert_eq!(
        place.after('x'),
        TextPosition { absolute: 8, line: 2, column: 5 }
    );
    assert_eq!(
        place.after('\n'),
        TextPosition { absolute: 8, line: 3, column: 0 }
    );
    assert_eq!(
        place.after('\r'),
        TextPosition { absolute: 8, line: 2, column: 5 }
    );
}

#[test]
fn token_position_new_keeps_both_ends() {
    let start = TextPosition { absolute: 1, line: 0, column: 1 };
    let end = TextPosition { absolute: 9, line: 3, column: 2 };
    assert_eq!(TokenPosition::new(start, end), TokenPosition { start, end });
}

#[test]
fn character_classes() {
    for c in ['a', 'z', 'A', 'Z', '_'] {
        assert!(is_ident_head(c));
        assert!(is_ident_tail(c));
    }
    for c in ['0', '9'] {
        assert!(!is_ident_head(c));
        assert!(is_ident_tail(c));
        assert!(is_opal_decimal_digit(c));
    }
    assert!(is_opal_decimal_digit('_'));
    for c in ['@', '[', '`', '{', '/', ':', ' ', '\u{e9}', '\u{661}'] {
        assert!(!is_ident_head(c));
        assert!(!is_ident_tail(c));
        assert!(!is_opal_decimal_digit(c));
    }
    for c in [' ', '\t', '\n', '\x0C', '\r'] {
        assert!(is_whitespace(c));
        assert!(CharClass::Whitespace.test(c));
    }
    for c in ['\x0B', '\u{a0}', 'a', '0'] {
        assert!(!is_whitespace(c));
    }
    assert!(CharClass::LiteralBody.test('_'));
    assert!(!CharClass::LiteralBody.test('a'));
    assert!(CharClass::IdentTail.test('7'));
    assert!(!CharClass::IdentTail.test('-'));
}

#[test]
fn lookup_keyword_finds_reserved_words_only() {
    assert_eq!(lookup_keyword(&chars("sizeof")), Some(Keyword::SizeOf));
    assert_eq!(lookup_keyword(&chars("u8")), Some(Keyword::U8));
    assert_eq!(lookup_keyword(&chars("enum")), Some(Keyword::Enum));
    assert_eq!(lookup_keyword(&chars("Enum")), None);
    assert_eq!(lookup_keyword(&chars("enu")), None);
    assert_eq!(lookup_keyword(&chars("enums")), None);
    assert_eq!(lookup_keyword(&chars("")), None);
}

#[test]
fn spells_compares_all_of_the_word() {
    assert!(spells(&chars("var"), "var"));
    assert!(spells(&chars(""), ""));
    assert!(spells(&chars("\u{e9}t\u{e9}"), "\u{e9}t\u{e9}"));
    assert!(!spells(&chars("var"), "va"));
    assert!(!spells(&chars("va"), "var"));
    assert!(!spells(&chars("vat"), "var"));
}

#[test]
fn collect_string_keeps_the_characters() {
    assert_eq!(collect_string(&chars("a\u{1F605}b")), "a\u{1F605}b");
    assert_eq!(collect_string(&Vec::new()), "");
}

#[test]
fn push_decimal_appends_the_digits() {
    let cases = [(0usize, "0"), (7, "7"), (10, "10"), (65535, "65535"), (1000000, "1000000")];
    for (number, digits) in cases {
        let mut text = String::from("n = ");
        push_decimal(&mut text, number);
        assert_eq!(text, format!("n = {}", digits));
    }
    let mut text = String::new();
    push_decimal(&mut text, usize::MAX);
    assert_eq!(text, format!("{}", usize::MAX));
}

#[test]
fn symbol_table_puts_longer_symbols_first() {
    assert_eq!(SYMBOLS, 40);
    assert_eq!(symbol(0), ("<<=", TokenKind::LeftChevronEqual));
    assert_eq!(symbol(2), ("<<", TokenKind::LeftChevron));
    assert_eq!(symbol(25), ("<", TokenKind::LessThan));
    assert_eq!(symbol(39), (",", TokenKind::Comma));
    let mut longest = 3;
    for index in 0..SYMBOLS {
        let (pattern, _) = symbol(index);
        assert!(pattern.len() >= 1 && pattern.len() <= longest);
        longest = pattern.len();
    }
}
