use opal::{
    tokenize, CompilerError, IntegerLiteralKind, Keyword, LexErrorKind, Lexer, TextPosition,
    Token, TokenKind, TokenPosition,
};

fn at(absolute: usize, line: usize, column: usize) -> TextPosition {
    TextPosition { absolute, line, column }
}

fn span(start: TextPosition, end: TextPosition) -> TokenPosition {
    TokenPosition { start, end }
}

fn kinds_of(input: &str) -> Vec<TokenKind> {
    tokenize(input).unwrap().into_iter().map(|token| token.kind).collect()
}

#[test]
fn shift_assign_is_one_token() {
    let mut lexer = Lexer::new("<<=");
    assert_eq!(
        lexer.next_token().unwrap(),
        Token::new(TokenKind::LeftChevronEqual, span(at(0, 0, 0), at(3, 0, 3)))
    );
    assert_eq!(lexer.next_token().unwrap_err().kind, LexErrorKind::InputExhausted);
}

#[test]
fn longer_symbols_win() {
    assert_eq!(kinds_of("<<"), vec![TokenKind::LeftChevron]);
    assert_eq!(kinds_of(">>="), vec![TokenKind::RightChevronEqual]);
    assert_eq!(kinds_of("<="), vec![TokenKind::LessThanEqual]);
    assert_eq!(kinds_of("<"), vec![TokenKind::LessThan]);
    assert_eq!(kinds_of("&&&"), vec![TokenKind::DoubleAmpersand, TokenKind::Ampersand]);
    assert_eq!(kinds_of("==="), vec![TokenKind::DoubleEqual, TokenKind::Equal]);
    assert_eq!(
        kinds_of("<<<="),
        vec![TokenKind::LeftChevron, TokenKind::LessThanEqual]
    );
}

#[test]
fn every_symbol_lexes_to_its_kind() {
    let table = vec![
        ("<<=", TokenKind::LeftChevronEqual),
        (">>=", TokenKind::RightChevronEqual),
        ("<<", TokenKind::LeftChevron),
        (">>", TokenKind::RightChevron),
        ("+=", TokenKind::PlusEqual),
        ("-=", TokenKind::MinusEqual),
        ("*=", TokenKind::AsteriskEqual),
        ("/=", TokenKind::ForwardSlashEqual),
        ("%=", TokenKind::PercentEqual),
        ("&=", TokenKind::AmpersandEqual),
        ("|=", TokenKind::BarEqual),
        ("^=", TokenKind::CaretEqual),
        ("==", TokenKind::DoubleEqual),
        ("!=", TokenKind::BangEqual),
        ("<=", TokenKind::LessThanEqual),
        (">=", TokenKind::GreaterThanEqual),
        ("&&", TokenKind::DoubleAmpersand),
        ("||", TokenKind::DoubleBar),
        ("+", TokenKind::Plus),
        ("-", TokenKind::Minus),
        ("!", TokenKind::Bang),
        ("&", TokenKind::Ampersand),
        ("|", TokenKind::Bar),
        ("^", TokenKind::Caret),
        ("=", TokenKind::Equal),
        ("<", TokenKind::LessThan),
        (">", TokenKind::GreaterThan),
        ("*", TokenKind::Asterisk),
        ("/", TokenKind::ForwardSlash),
        ("%", TokenKind::Percent),
        (".", TokenKind::Dot),
        ("[", TokenKind::LeftBracket),
        ("]", TokenKind::RightBracket),
        ("(", TokenKind::LeftParenthesis),
        (")", TokenKind::RightParenthesis),
        ("{", TokenKind::LeftBrace),
        ("}", TokenKind::RightBrace),
        (":", TokenKind::Colon),
        (";", TokenKind::SemiColon),
        (",", TokenKind::Comma),
    ];
    for (pattern, kind) in table {
        let length = pattern.chars().count();
        assert_eq!(
            Lexer::new(pattern).next_token().unwrap(),
            Token::new(kind, span(at(0, 0, 0), at(length, 0, length)))
        );
    }
}

#[test]
fn every_reserved_word_lexes_to_its_keyword() {
    let table = vec![
        ("u8", Keyword::U8),
        ("i8", Keyword::I8),
        ("u16", Keyword::U16),
        ("i16", Keyword::I16),
        ("fn", Keyword::Fn),
        ("sizeof", Keyword::SizeOf),
        ("type", Keyword::Type),
        ("const", Keyword::Const),
        ("var", Keyword::Var),
        ("if", Keyword::If),
        ("else", Keyword::Else),
        ("while", Keyword::While),
        ("for", Keyword::For),
        ("switch", Keyword::Switch),
        ("case", Keyword::Case),
        ("default", Keyword::Default),
        ("break", Keyword::Break),
        ("continue", Keyword::Continue),
        ("return", Keyword::Return),
        ("extern", Keyword::Extern),
        ("struct", Keyword::Struct),
        ("union", Keyword::Union),
        ("enum", Keyword::Enum),
    ];
    for (word, keyword) in table {
        assert_eq!(kinds_of(word), vec![TokenKind::Keyword(keyword)]);
    }
}

#[test]
fn words_that_are_not_reserved_are_identifiers() {
    for word in ["foo", "_foo", "_", "_1", "Var", "vars", "u32", "structs", "a_b_9", "IF"] {
        assert_eq!(
            kinds_of(word),
            vec![TokenKind::Identifier(String::from(word))]
        );
    }
}

#[test]
fn integer_literal_limits() {
    assert_eq!(
        kinds_of("65535"),
        vec![TokenKind::IntegerLiteral(IntegerLiteralKind::Decimal, 65535)]
    );
    assert_eq!(
        kinds_of("0"),
        vec![TokenKind::IntegerLiteral(IntegerLiteralKind::Decimal, 0)]
    );
    assert_eq!(
        kinds_of("000_065_535"),
        vec![TokenKind::IntegerLiteral(IntegerLiteralKind::Decimal, 65535)]
    );
    assert_eq!(
        kinds_of("6_5_5_3_5"),
        vec![TokenKind::IntegerLiteral(IntegerLiteralKind::Decimal, 65535)]
    );
}

#[test]
fn separators_at_the_end_belong_to_the_literal() {
    assert_eq!(
        Lexer::new("1__").next_token().unwrap(),
        Token::new(
            TokenKind::IntegerLiteral(IntegerLiteralKind::Decimal, 1),
            span(at(0, 0, 0), at(3, 0, 3))
        )
    );
}

#[test]
fn integer_literal_overflow_is_an_error() {
    for literal in ["65536", "70000", "99999999999999999999999999", "6_5_5_3_6"] {
        let mut lexer = Lexer::new(literal);
        let error = lexer.next_token().unwrap_err();
        assert_eq!(error.kind, LexErrorKind::IntegerOverflow);
        assert_eq!(error.get_position(), at(0, 0, 0));
        assert_eq!(error.msg, "Integer literal does not fit in 16 bits.");
        // The lexer has passed the literal.
        assert_eq!(lexer.next_token().unwrap_err().kind, LexErrorKind::InputExhausted);
    }
}

#[test]
fn overflow_after_other_tokens_is_reported_at_the_literal() {
    match tokenize("var 70000") {
        Err((CompilerError::LexError(error), tokens)) => {
            assert_eq!(error.kind, LexErrorKind::IntegerOverflow);
            assert_eq!(error.get_position(), at(4, 0, 4));
            assert_eq!(tokens.len(), 2);
        }
        other => panic!("unexpected result {:?}", other),
    }
}

#[test]
fn lexing_goes_on_behind_a_literal_that_is_too_large() {
    let mut lexer = Lexer::new("70000;");
    assert_eq!(lexer.next_token().unwrap_err().kind, LexErrorKind::IntegerOverflow);
    assert_eq!(
        lexer.next_token().unwrap(),
        Token::new(TokenKind::SemiColon, span(at(5, 0, 5), at(6, 0, 6)))
    );
}

#[test]
fn digits_before_letters_are_a_literal_then_a_word() {
    assert_eq!(
        kinds_of("12ab"),
        vec![
            TokenKind::IntegerLiteral(IntegerLiteralKind::Decimal, 12),
            TokenKind::Identifier(String::from("ab")),
        ]
    );
}

#[test]
fn whitespace_counts_line_breaks() {
    let mut lexer = Lexer::new(" \n\t\r\n\x0C x");
    assert_eq!(
        lexer.next_token().unwrap(),
        Token::new(TokenKind::Whitespace(2), span(at(0, 0, 0), at(7, 2, 2)))
    );
    assert_eq!(
        lexer.next_token().unwrap(),
        Token::new(
            TokenKind::Identifier(String::from("x")),
            span(at(7, 2, 2), at(8, 2, 3))
        )
    );
}

#[test]
fn columns_start_at_zero_on_every_line() {
    let tokens = tokenize("a\nb").unwrap();
    assert_eq!(tokens[0].position, span(at(0, 0, 0), at(1, 0, 1)));
    assert_eq!(tokens[1].position, span(at(1, 0, 1), at(2, 1, 0)));
    assert_eq!(tokens[2].position, span(at(2, 1, 0), at(3, 1, 1)));
}

#[test]
fn multiple_char_literal_says_how_many() {
    let mut lexer = Lexer::new("'ab'");
    let error = lexer.next_token().unwrap_err();
    assert_eq!(error.kind, LexErrorKind::MultipleCharLiteral);
    assert_eq!(error.get_position(), at(0, 0, 0));
    assert_eq!(error.msg, "Character literal may only contain 1 character. Found 2");

    let error = Lexer::new("'abcdefghijkl'").next_token().unwrap_err();
    assert_eq!(error.kind, LexErrorKind::MultipleCharLiteral);
    assert_eq!(error.msg, "Character literal may only contain 1 character. Found 12");
}

#[test]
fn empty_char_literal_message() {
    let error = Lexer::new("''").next_token().unwrap_err();
    assert_eq!(error.msg, "Character literal may not be empty.");
}

#[test]
fn unterminated_char_literal() {
    for input in ["'", "'a", "'ab"] {
        let mut lexer = Lexer::new(input);
        let error = lexer.next_token().unwrap_err();
        assert_eq!(error.kind, LexErrorKind::UnexpectedEOF);
        assert_eq!(error.get_position(), at(0, 0, 0));
        assert_eq!(error.msg, "Unexpected EOF when searching for `'`");
        // The lexer is back at the opening quote.
        assert_eq!(lexer.next_token().unwrap_err().kind, LexErrorKind::UnexpectedEOF);
    }
}

#[test]
fn char_literal_errors_are_reported_at_the_opening_quote() {
    match tokenize("x ''") {
        Err((CompilerError::LexError(error), tokens)) => {
            assert_eq!(error.kind, LexErrorKind::EmptyCharLiteral);
            assert_eq!(error.get_position(), at(2, 0, 2));
            assert_eq!(tokens.len(), 2);
        }
        other => panic!("unexpected result {:?}", other),
    }
}

#[test]
fn char_literal_may_hold_any_character() {
    assert_eq!(kinds_of("'\"'"), vec![TokenKind::CharLiteral('"')]);
    assert_eq!(kinds_of("' '"), vec![TokenKind::CharLiteral(' ')]);
    assert_eq!(kinds_of("'\u{e9}'"), vec![TokenKind::CharLiteral('\u{e9}')]);
    let tokens = tokenize("'\n'").unwrap();
    assert_eq!(
        tokens[0],
        Token::new(TokenKind::CharLiteral('\n'), span(at(0, 0, 0), at(3, 1, 1)))
    );
}

#[test]
fn string_literal_takes_everything_up_to_the_quote() {
    let tokens = tokenize("\"a\\n'b\nc\u{1F605}\" x").unwrap();
    assert_eq!(
        tokens[0],
        Token::new(
            TokenKind::StringLiteral(String::from("a\\n'b\nc\u{1F605}")),
            span(at(0, 0, 0), at(10, 1, 3))
        )
    );
    assert_eq!(tokens.len(), 3);
}

#[test]
fn unterminated_string_is_reported_at_the_end() {
    let mut lexer = Lexer::new("\"foo");
    let error = lexer.next_token().unwrap_err();
    assert_eq!(error.kind, LexErrorKind::UnexpectedEOF);
    assert_eq!(error.get_position(), at(4, 0, 4));
    assert_eq!(error.msg, "Not given");
    // The lexer has read to the end.
    assert_eq!(lexer.next_token().unwrap_err().kind, LexErrorKind::InputExhausted);
}

#[test]
fn unrecognized_character_names_the_character() {
    let mut lexer = Lexer::new("a $");
    lexer.next_token().unwrap();
    lexer.next_token().unwrap();
    let error = lexer.next_token().unwrap_err();
    assert_eq!(error.kind, LexErrorKind::UnrecognizedCharacter);
    assert_eq!(error.get_position(), at(2, 0, 2));
    assert_eq!(error.msg, "Unrecognized character '$'");
    // The lexer stays at the character.
    assert_eq!(lexer.next_token().unwrap_err().get_position(), at(2, 0, 2));
}

#[test]
fn letters_outside_ascii_are_not_recognized() {
    let error = Lexer::new("\u{e9}").next_token().unwrap_err();
    assert_eq!(error.kind, LexErrorKind::UnrecognizedCharacter);
    assert_eq!(error.msg, "Unrecognized character '\u{e9}'");
}

#[test]
fn input_exhausted_is_reported_at_the_end() {
    let mut lexer = Lexer::new("ab");
    lexer.next_token().unwrap();
    let error = lexer.next_token().unwrap_err();
    assert_eq!(error.kind, LexErrorKind::InputExhausted);
    assert_eq!(error.get_position(), at(2, 0, 2));
    assert_eq!(error.msg, "Not given");
}

#[test]
fn with_msg_replaces_the_message_only() {
    let error = opal::LexError::new(LexErrorKind::UnexpectedEOF, at(3, 1, 2));
    assert_eq!(error.msg, "Not given");
    let error = error.with_msg(String::from("out of text"));
    assert_eq!(error.kind, LexErrorKind::UnexpectedEOF);
    assert_eq!(error.msg, "out of text");
    assert_eq!(error.get_position(), at(3, 1, 2));
}

#[test]
fn never_surfaces_the_nonconforming_signal() {
    for input in ["", " ", "1", "'", "\"", "a", "+", "$", "_", "\u{1F605}", "''", "'ab'", "70000"] {
        match Lexer::new(input).next_token() {
            Ok(_) => {}
            Err(error) => assert_ne!(error.kind, LexErrorKind::NonconformingLexeme),
        }
    }
}

#[test]
fn spans_tile_the_input() {
    for input in [
        "",
        "var foo: u8 = 5;",
        "struct Point {\n  x: u8,\n  y: u8\n}\n",
        "a<<=b>>=c 'x' \"str ing\" 12_3 \t\r\n _id",
        "\"\"''",
    ] {
        let length = input.chars().count();
        match tokenize(input) {
            Ok(tokens) => {
                let mut offset = 0;
                let mut place = at(0, 0, 0);
                for token in tokens.iter() {
                    assert_eq!(token.position.start.absolute, offset);
                    assert_eq!(token.position.start, place);
                    assert!(token.position.start.absolute < token.position.end.absolute);
                    offset = token.position.end.absolute;
                    place = token.position.end;
                }
                assert_eq!(offset, length);
            }
            Err((_, tokens)) => {
                // "\"\"''" ends in an empty character literal.
                assert_eq!(input, "\"\"''");
                assert_eq!(tokens.len(), 1);
                assert_eq!(tokens[0].position, span(at(0, 0, 0), at(2, 0, 2)));
            }
        }
    }
}

#[test]
fn spans_give_back_the_text() {
    let input = "type  baz=u8 ;\n'c'\"s\"";
    let chars: Vec<char> = input.chars().collect();
    let mut rebuilt = String::new();
    for token in tokenize(input).unwrap() {
        let lexeme: String = chars[token.position.start.absolute..token.position.end.absolute]
            .iter()
            .collect();
        rebuilt.push_str(&lexeme);
    }
    assert_eq!(rebuilt, input);
}

#[test]
fn tokenize_variable_declaration() {
    let tokens = tokenize("var foo: u8 = 5;").unwrap();
    let kinds: Vec<TokenKind> = tokens.iter().map(|token| token.kind.clone()).collect();
    assert_eq!(
        kinds,
        vec![
            TokenKind::Keyword(Keyword::Var),
            TokenKind::Whitespace(0),
            TokenKind::Identifier(String::from("foo")),
            TokenKind::Colon,
            TokenKind::Whitespace(0),
            TokenKind::Keyword(Keyword::U8),
            TokenKind::Whitespace(0),
            TokenKind::Equal,
            TokenKind::Whitespace(0),
            TokenKind::IntegerLiteral(IntegerLiteralKind::Decimal, 5),
            TokenKind::SemiColon,
        ]
    );
    assert_eq!(tokens[10].position, span(at(15, 0, 15), at(16, 0, 16)));
}

#[test]
fn tokenize_stops_at_the_first_error() {
    match tokenize("a = $ b") {
        Err((CompilerError::LexError(error), tokens)) => {
            assert_eq!(error.kind, LexErrorKind::UnrecognizedCharacter);
            assert_eq!(error.get_position(), at(4, 0, 4));
            let kinds: Vec<TokenKind> = tokens.into_iter().map(|token| token.kind).collect();
            assert_eq!(
                kinds,
                vec![
                    TokenKind::Identifier(String::from("a")),
                    TokenKind::Whitespace(0),
                    TokenKind::Equal,
                    TokenKind::Whitespace(0),
                ]
            );
        }
        other => panic!("unexpected result {:?}", other),
    }
}

#[test]
fn tokenize_empty_input() {
    assert_eq!(tokenize("").unwrap(), Vec::<Token>::new());
}

#[test]
fn recognizers_decline_in_place_before_another_character() {
    let declines: [(&str, fn(&mut Lexer) -> opal::LexResult<Token>); 6] = [
        ("x", Lexer::next_whitespace),
        ("x", Lexer::next_integer_literal),
        ("x", Lexer::next_char_literal),
        ("x", Lexer::next_string_literal),
        ("5", Lexer::next_identifier_or_keyword),
        ("x", Lexer::next_primitive_token),
    ];
    for (input, recognizer) in declines {
        let mut lexer = Lexer::new(input);
        let error = recognizer(&mut lexer).unwrap_err();
        assert_eq!(error.kind, LexErrorKind::NonconformingLexeme);
        assert_eq!(error.get_position(), at(0, 0, 0));
        assert_eq!(error.msg, "Not given");
        // The lexer has not moved: the whole token is still there.
        let token = lexer.next_token().unwrap();
        assert_eq!(token.position, span(at(0, 0, 0), at(1, 0, 1)));
    }
}

#[test]
fn recognizers_at_the_end_of_the_text() {
    let answers: [(fn(&mut Lexer) -> opal::LexResult<Token>, LexErrorKind); 6] = [
        (Lexer::next_whitespace, LexErrorKind::NonconformingLexeme),
        (Lexer::next_integer_literal, LexErrorKind::NonconformingLexeme),
        (Lexer::next_primitive_token, LexErrorKind::NonconformingLexeme),
        (Lexer::next_char_literal, LexErrorKind::UnexpectedEOF),
        (Lexer::next_string_literal, LexErrorKind::UnexpectedEOF),
        (Lexer::next_identifier_or_keyword, LexErrorKind::UnexpectedEOF),
    ];
    for (recognizer, kind) in answers {
        for input in ["", "ab"] {
            let mut lexer = Lexer::new(input);
            let length = input.len();
            if length > 0 {
                lexer.next_token().unwrap();
            }
            let error = recognizer(&mut lexer).unwrap_err();
            assert_eq!(error.kind, kind);
            assert_eq!(error.get_position(), at(length, 0, length));
            assert_eq!(error.msg, "Not given");
            assert_eq!(lexer.next_token().unwrap_err().kind, LexErrorKind::InputExhausted);
        }
    }
}

#[test]
fn recognizers_read_their_own_class() {
    let mut lexer = Lexer::new(" \n\n\tx");
    assert_eq!(
        lexer.next_whitespace().unwrap(),
        Token::new(TokenKind::Whitespace(2), span(at(0, 0, 0), at(4, 2, 1)))
    );
    assert_eq!(lexer.next_whitespace().unwrap_err().kind, LexErrorKind::NonconformingLexeme);
    assert_eq!(
        lexer.next_identifier_or_keyword().unwrap(),
        Token::new(TokenKind::Identifier(String::from("x")), span(at(4, 2, 1), at(5, 2, 2)))
    );

    for (input, kind, length) in [
        ("<<=", TokenKind::LeftChevronEqual, 3),
        ("<<", TokenKind::LeftChevron, 2),
        ("<(", TokenKind::LessThan, 1),
        ("==", TokenKind::DoubleEqual, 2),
        ("=", TokenKind::Equal, 1),
    ] {
        let mut lexer = Lexer::new(input);
        assert_eq!(
            lexer.next_primitive_token().unwrap(),
            Token::new(kind, span(at(0, 0, 0), at(length, 0, length)))
        );
    }

    assert_eq!(
        Lexer::new("1_0;").next_integer_literal().unwrap(),
        Token::new(
            TokenKind::IntegerLiteral(IntegerLiteralKind::Decimal, 10),
            span(at(0, 0, 0), at(3, 0, 3))
        )
    );
    assert_eq!(
        Lexer::new("'c'").next_char_literal().unwrap().kind,
        TokenKind::CharLiteral('c')
    );
    assert_eq!(
        Lexer::new("\"s\"").next_string_literal().unwrap().kind,
        TokenKind::StringLiteral(String::from("s"))
    );
}
