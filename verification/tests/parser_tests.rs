use opal::{
    parse, tokenize, CompilerError, ConstantVariableDeclaration, Expression, Field,
    IntegerLiteralKind, Keyword, ParseError, ParseErrorKind, Parser, Statement,
    StructUnionDeclaration, TextPosition, Token, TokenKind, TokenPosition, Type, TypeDeclaration,
};

fn at(absolute: usize, line: usize, column: usize) -> TextPosition {
    TextPosition { absolute, line, column }
}

fn span(start: TextPosition, end: TextPosition) -> TokenPosition {
    TokenPosition { start, end }
}

fn parse_text(input: &str) -> Result<Vec<Statement>, (CompilerError, Vec<Statement>)> {
    parse(tokenize(input).unwrap())
}

fn parser_for(input: &str) -> Parser {
    Parser::new(tokenize(input).unwrap())
}

fn parse_error(input: &str) -> (ParseError, Vec<Statement>) {
    match parse_text(input) {
        Err((CompilerError::ParseError(error), statements)) => (error, statements),
        other => panic!("unexpected result {:?}", other),
    }
}

fn field(identifier: &str, field_type: Type) -> Field {
    Field { identifier: String::from(identifier), field_type }
}

#[test]
fn parses_variable_declaration() {
    assert_eq!(
        parse_text("var foo: u8 = 5;").unwrap(),
        vec![Statement::VariableDeclaration(ConstantVariableDeclaration {
            is_var: true,
            identifier: String::from("foo"),
            const_type: Type::U8,
            value: Expression::IntegerLiteral(IntegerLiteralKind::Decimal, 5),
        })]
    );
}

#[test]
fn parses_constant_declaration() {
    assert_eq!(
        parse_text("const limit: u16 = 65_535;").unwrap(),
        vec![Statement::ConstantDeclaration(ConstantVariableDeclaration {
            is_var: false,
            identifier: String::from("limit"),
            const_type: Type::U16,
            value: Expression::IntegerLiteral(IntegerLiteralKind::Decimal, 65535),
        })]
    );
}

#[test]
fn parses_struct_declaration() {
    assert_eq!(
        parse_text("struct Point { x: u8, y: u8 }").unwrap(),
        vec![Statement::StructDeclaration(StructUnionDeclaration {
            is_union: false,
            identifier: String::from("Point"),
            fields: vec![field("x", Type::U8), field("y", Type::U8)],
        })]
    );
}

#[test]
fn parses_union_declaration() {
    assert_eq!(
        parse_text("union Word{lo:i8,hi:i16}").unwrap(),
        vec![Statement::UnionDeclaration(StructUnionDeclaration {
            is_union: true,
            identifier: String::from("Word"),
            fields: vec![field("lo", Type::I8), field("hi", Type::I16)],
        })]
    );
}

#[test]
fn parses_struct_without_fields() {
    assert_eq!(
        parse_text("struct Unit { }").unwrap(),
        vec![Statement::StructDeclaration(StructUnionDeclaration {
            is_union: false,
            identifier: String::from("Unit"),
            fields: vec![],
        })]
    );
}

#[test]
fn parses_struct_with_one_field() {
    assert_eq!(
        parse_text("struct One { only: i16 }").unwrap(),
        vec![Statement::StructDeclaration(StructUnionDeclaration {
            is_union: false,
            identifier: String::from("One"),
            fields: vec![field("only", Type::I16)],
        })]
    );
}

#[test]
fn parses_type_declaration() {
    assert_eq!(
        parse_text("type baz = u8;").unwrap(),
        vec![Statement::TypeDeclaration(TypeDeclaration {
            identifier: String::from("baz"),
            ty: Type::U8,
        })]
    );
}

#[test]
fn parses_every_scalar_type() {
    for (word, ty) in [("u8", Type::U8), ("i8", Type::I8), ("u16", Type::U16), ("i16", Type::I16)] {
        let mut parser = parser_for(word);
        let (parsed, position) = parser.parse_type().unwrap();
        assert_eq!(parsed, ty);
        let end = word.len();
        assert_eq!(position, span(at(0, 0, 0), at(end, 0, end)));
    }
}

#[test]
fn empty_input_is_an_empty_program() {
    assert_eq!(parse_text("").unwrap(), vec![]);
    assert_eq!(parse(Vec::new()).unwrap(), vec![]);
}

#[test]
fn whitespace_alone_is_an_empty_program() {
    assert_eq!(parse_text(" \n\t ").unwrap(), vec![]);
}

#[test]
fn parses_declarations_in_order() {
    let statements = parse_text(
        "\nconst a: u8 = 1;\n\nvar b: i8 = 2;\nstruct S { f: u16 }\nunion U { }\ntype t = i16;\n",
    )
    .unwrap();
    assert_eq!(statements.len(), 5);
    assert!(matches!(statements[0], Statement::ConstantDeclaration(_)));
    assert!(matches!(statements[1], Statement::VariableDeclaration(_)));
    assert!(matches!(statements[2], Statement::StructDeclaration(_)));
    assert!(matches!(statements[3], Statement::UnionDeclaration(_)));
    assert_eq!(
        statements[4],
        Statement::TypeDeclaration(TypeDeclaration { identifier: String::from("t"), ty: Type::I16 })
    );
}

#[test]
fn whitespace_between_tokens_is_free() {
    let dense = parse_text("var foo:u8=5;").unwrap();
    let loose = parse_text("  var\n\nfoo\t:\r\nu8   =\n5\n;  ").unwrap();
    assert_eq!(dense, loose);
}

#[test]
fn declaration_hands_out_the_span_of_its_last_token() {
    let mut parser = parser_for("var foo: u8 = 5;");
    let (_, position) = parser.parse_declaration().unwrap();
    assert_eq!(position, span(at(15, 0, 15), at(16, 0, 16)));
    assert!(parser.is_exhausted());
}

#[test]
fn end_of_tokens_inside_a_declaration() {
    for input in ["var", "var foo", "var foo:", "var foo: u8", "var foo: u8 =", "var foo: u8 = 5"] {
        let (error, statements) = parse_error(input);
        assert_eq!(error.kind, ParseErrorKind::UnexpectedEOF);
        assert_eq!(error.msg, "Parsing error: UnexpectedEOF");
        let end = input.len();
        assert_eq!(error.position, at(end, 0, end));
        assert_eq!(statements, vec![]);
    }
}

#[test]
fn end_of_tokens_inside_a_struct() {
    let inputs = [
        "struct",
        "struct P",
        "struct P {",
        "struct P { x",
        "struct P { x: u8",
        "struct P { x: u8,",
    ];
    for input in inputs {
        let (error, _) = parse_error(input);
        assert_eq!(error.kind, ParseErrorKind::UnexpectedEOF);
        let end = input.len();
        assert_eq!(error.position, at(end, 0, end));
    }
}

#[test]
fn end_of_tokens_after_whitespace_points_at_the_end() {
    let (error, _) = parse_error("type a = \n");
    assert_eq!(error.kind, ParseErrorKind::UnexpectedEOF);
    assert_eq!(error.position, at(10, 1, 0));
}

#[test]
fn wrong_token_inside_a_declaration() {
    let cases = [
        ("var 5: u8 = 5;", 4),
        ("var foo u8 = 5;", 8),
        ("var foo: foo = 5;", 9),
        ("var foo: u8 5;", 12),
        ("var foo: u8 = x;", 14),
        ("var foo: u8 = 'c';", 14),
        ("var foo: u8 = 5 5", 16),
        ("const var: u8 = 5;", 6),
        ("type 5 = u8;", 5),
        ("type a: u8;", 6),
        ("type a = b;", 9),
        ("type a = fn;", 9),
        ("type a = u8 u8", 12),
        ("struct { }", 7),
        ("struct P [ ]", 9),
        ("union P { 5 }", 10),
    ];
    for (input, offset) in cases {
        let (error, statements) = parse_error(input);
        assert_eq!(error.kind, ParseErrorKind::UnexpectedToken, "{}", input);
        assert_eq!(error.msg, "Unexpected token");
        assert_eq!(error.position, at(offset, 0, offset), "{}", input);
        assert_eq!(statements, vec![]);
    }
}

#[test]
fn trailing_comma_is_an_error() {
    let (error, _) = parse_error("struct P { x: u8, }");
    assert_eq!(error.kind, ParseErrorKind::UnexpectedToken);
    assert_eq!(error.position, at(18, 0, 18));
}

#[test]
fn missing_comma_is_an_error() {
    let (error, _) = parse_error("struct P { x: u8 y: u8 }");
    assert_eq!(error.kind, ParseErrorKind::UnexpectedToken);
    assert_eq!(error.position, at(17, 0, 17));
}

#[test]
fn field_without_type_is_an_error() {
    let (error, _) = parse_error("struct P { x }");
    assert_eq!(error.kind, ParseErrorKind::UnexpectedToken);
    assert_eq!(error.position, at(13, 0, 13));
}

#[test]
fn token_that_starts_no_declaration() {
    for input in ["foo", "5", ";", "u8 x", "fn main", "enum E { }", "if", "return 5;", "extern"] {
        let (error, statements) = parse_error(input);
        assert_eq!(error.kind, ParseErrorKind::UnexpectedToken, "{}", input);
        assert_eq!(error.msg, "Unexpected token");
        assert_eq!(error.position, at(0, 0, 0));
        assert_eq!(statements, vec![]);
    }
}

#[test]
fn error_comes_with_the_declarations_before_it() {
    let (error, statements) = parse_error("var a: u8 = 1;\ntype b = u8;\nvar c u8");
    assert_eq!(error.kind, ParseErrorKind::UnexpectedToken);
    assert_eq!(error.position, at(34, 2, 6));
    assert_eq!(statements.len(), 2);
    assert_eq!(
        statements[1],
        Statement::TypeDeclaration(TypeDeclaration { identifier: String::from("b"), ty: Type::U8 })
    );
}

#[test]
fn failed_declaration_leaves_the_parser_where_it_was() {
    let mut parser = parser_for("var foo: u8 = ;");
    let first = parser.parse_declaration().unwrap_err();
    assert_eq!(first.kind, ParseErrorKind::UnexpectedToken);
    assert_eq!(first.position, at(14, 0, 14));
    // Nothing has been read: the same call fails in the same way, and the
    // reserved word is still the next token.
    assert_eq!(parser.parse_declaration().unwrap_err(), first);
    let (_, position) = parser.parse_keyword(Keyword::Var).unwrap();
    assert_eq!(position, span(at(0, 0, 0), at(3, 0, 3)));
}

#[test]
fn failed_token_leaves_the_parser_where_it_was() {
    let mut parser = parser_for("var x");
    assert_eq!(
        parser.parse_keyword(Keyword::Const).unwrap_err().kind,
        ParseErrorKind::UnexpectedToken
    );
    assert_eq!(
        parser.parse_identifier().unwrap_err().kind,
        ParseErrorKind::UnexpectedToken
    );
    assert_eq!(
        parser.parse_token(TokenKind::Equal).unwrap_err().position,
        at(0, 0, 0)
    );
    assert_eq!(parser.parse_type().unwrap_err().position, at(0, 0, 0));
    assert_eq!(parser.parse_expression().unwrap_err().position, at(0, 0, 0));
    assert_eq!(parser.parse_whitespace().unwrap_err().position, at(0, 0, 0));
    assert_eq!(parser.index(), 0);
    parser.parse_keyword(Keyword::Var).unwrap();
    assert_eq!(parser.index(), 1);
    parser.skip_whitespace();
    let (name, position) = parser.parse_identifier().unwrap();
    assert_eq!(name, "x");
    assert_eq!(position, span(at(4, 0, 4), at(5, 0, 5)));
    assert_eq!(parser.index(), 3);
    assert_eq!(
        parser.parse_identifier().unwrap_err().kind,
        ParseErrorKind::UnexpectedEOF
    );
    assert_eq!(parser.index(), 3);
}

#[test]
fn parse_token_looks_at_the_token_at_the_index_only() {
    // Whitespace is a token like any other: asked for, it is read.
    let mut parser = Parser::new(Token::from_kinds(&vec![TokenKind::Whitespace(0)]));
    assert!(parser.parse_token(TokenKind::Whitespace(0)).is_ok());
    assert_eq!(parser.index(), 1);

    // Not asked for, it is in the way.
    let mut parser = Parser::new(Token::from_kinds(&vec![
        TokenKind::Whitespace(0),
        TokenKind::Comma,
    ]));
    let error = parser.parse_token(TokenKind::Comma).unwrap_err();
    assert_eq!(error.kind, ParseErrorKind::UnexpectedToken);
    assert_eq!(parser.index(), 0);
    assert_eq!(
        parser.parse_token(TokenKind::Whitespace(1)).unwrap_err().kind,
        ParseErrorKind::UnexpectedToken
    );
    assert!(parser.parse_token(TokenKind::Whitespace(0)).is_ok());
    assert!(parser.parse_token(TokenKind::Comma).is_ok());
    assert_eq!(parser.index(), 2);
    assert_eq!(
        parser.parse_token(TokenKind::Comma).unwrap_err().kind,
        ParseErrorKind::UnexpectedEOF
    );
    assert_eq!(parser.index(), 2);
}

#[test]
fn primitives_do_not_pass_whitespace_over() {
    let mut parser = parser_for(" var");
    let error = parser.parse_keyword(Keyword::Var).unwrap_err();
    assert_eq!(error.kind, ParseErrorKind::UnexpectedToken);
    assert_eq!(error.position, at(0, 0, 0));
    assert_eq!(parser.index(), 0);

    let mut parser = parser_for(" x");
    assert_eq!(parser.parse_identifier().unwrap_err().position, at(0, 0, 0));
    assert_eq!(parser.index(), 0);

    let mut parser = parser_for(" u8");
    assert_eq!(parser.parse_type().unwrap_err().kind, ParseErrorKind::UnexpectedToken);
    assert_eq!(parser.index(), 0);

    let mut parser = parser_for(" 5");
    assert_eq!(
        parser.parse_expression().unwrap_err().kind,
        ParseErrorKind::UnexpectedToken
    );
    assert_eq!(parser.index(), 0);
}

#[test]
fn skip_whitespace_stops_at_the_first_other_token() {
    let mut parser = parser_for(" \n x  y");
    parser.skip_whitespace();
    assert_eq!(parser.index(), 1);
    parser.skip_whitespace();
    assert_eq!(parser.index(), 1);
    assert_eq!(parser.parse_identifier().unwrap().0, "x");
    parser.skip_whitespace();
    assert_eq!(parser.parse_identifier().unwrap().0, "y");
    parser.skip_whitespace();
    assert_eq!(parser.index(), 4);
}

#[test]
fn index_and_current_tell_where_the_parser_is() {
    let mut parser = parser_for("var x");
    assert_eq!(parser.index(), 0);
    assert_eq!(parser.current().unwrap().kind, TokenKind::Keyword(Keyword::Var));
    parser.parse_keyword(Keyword::Var).unwrap();
    assert_eq!(parser.index(), 1);
    assert_eq!(parser.current().unwrap().kind, TokenKind::Whitespace(0));
    parser.skip_whitespace();
    assert_eq!(
        parser.current().unwrap(),
        Token::new(
            TokenKind::Identifier(String::from("x")),
            span(at(4, 0, 4), at(5, 0, 5))
        )
    );
    parser.parse_identifier().unwrap();
    assert_eq!(parser.index(), 3);
    assert_eq!(parser.current(), None);
    // A declaration that fails leaves both as they were.
    let mut parser = parser_for("type a = 5;");
    parser.parse_declaration().unwrap_err();
    assert_eq!(parser.index(), 0);
    assert_eq!(parser.current().unwrap().kind, TokenKind::Keyword(Keyword::Type));
}

#[test]
fn parse_whitespace_reads_one_token_at_the_place() {
    let mut parser = parser_for("\n\nx");
    assert_eq!(parser.parse_whitespace().unwrap().0, 2);
    let error = parser.parse_whitespace().unwrap_err();
    assert_eq!(error.kind, ParseErrorKind::UnexpectedToken);
    assert_eq!(error.position, at(2, 2, 0));
    parser.parse_identifier().unwrap();
    assert_eq!(
        parser.parse_whitespace().unwrap_err().kind,
        ParseErrorKind::UnexpectedEOF
    );
}

#[test]
fn parse_token_compares_kind_and_payload() {
    let mut parser = parser_for("7 \"a\"");
    assert_eq!(
        parser
            .parse_token(TokenKind::IntegerLiteral(IntegerLiteralKind::Decimal, 8))
            .unwrap_err()
            .kind,
        ParseErrorKind::UnexpectedToken
    );
    parser
        .parse_token(TokenKind::IntegerLiteral(IntegerLiteralKind::Decimal, 7))
        .unwrap();
    parser.skip_whitespace();
    assert_eq!(
        parser
            .parse_token(TokenKind::StringLiteral(String::from("b")))
            .unwrap_err()
            .position,
        at(2, 0, 2)
    );
    let (_, position) = parser.parse_token(TokenKind::StringLiteral(String::from("a"))).unwrap();
    assert_eq!(position, span(at(2, 0, 2), at(5, 0, 5)));
}

#[test]
fn parse_expression_reads_any_integer_literal() {
    for value in [0u16, 5, 255, 256, 40000, 65535] {
        let mut parser = parser_for(&format!("{}", value));
        assert_eq!(
            parser.parse_expression().unwrap().0,
            Expression::IntegerLiteral(IntegerLiteralKind::Decimal, value)
        );
    }
    assert_eq!(
        parser_for("x").parse_expression().unwrap_err().kind,
        ParseErrorKind::UnexpectedToken
    );
    assert_eq!(
        parser_for("").parse_expression().unwrap_err().kind,
        ParseErrorKind::UnexpectedEOF
    );
}

#[test]
fn parse_field_reads_name_and_type() {
    let mut parser = parser_for("count : u16 rest");
    let (parsed, position) = parser.parse_field().unwrap();
    assert_eq!(parsed, field("count", Type::U16));
    assert_eq!(position, span(at(8, 0, 8), at(11, 0, 11)));

    let mut parser = parser_for("count u16");
    let error = parser.parse_field().unwrap_err();
    assert_eq!(error.kind, ParseErrorKind::UnexpectedToken);
    assert_eq!(error.position, at(6, 0, 6));
    // The name has not been read.
    assert_eq!(parser.parse_identifier().unwrap().0, "count");
}

#[test]
fn is_exhausted_looks_past_whitespace() {
    assert!(parser_for("").is_exhausted());
    assert!(parser_for("  \n").is_exhausted());
    let mut parser = parser_for(" x ");
    assert!(!parser.is_exhausted());
    // Looking does not read.
    assert!(!parser.is_exhausted());
    assert_eq!(parser.index(), 0);
    parser.skip_whitespace();
    parser.parse_identifier().unwrap();
    assert!(parser.is_exhausted());
    assert_eq!(parser.index(), 2);
}

#[test]
fn errors_built_from_the_parser() {
    // The error is about the token at the parser's place, whitespace or not.
    let mut parser = parser_for("a  foo");
    parser.parse_identifier().unwrap();
    let error = ParseError::unexpected_token(&parser);
    assert_eq!(error.kind, ParseErrorKind::UnexpectedToken);
    assert_eq!(error.msg, "Unexpected token");
    assert_eq!(error.position, at(1, 0, 1));
    parser.skip_whitespace();
    assert_eq!(ParseError::unexpected_token(&parser).position, at(3, 0, 3));

    let error = ParseError::from_kind(&parser, ParseErrorKind::UnexpectedToken);
    assert_eq!(error.kind, ParseErrorKind::UnexpectedToken);
    assert_eq!(error.msg, "Parsing error: UnexpectedToken");
    assert_eq!(error.position, at(3, 0, 3));

    // Behind the last token it is about the end of that token.
    let mut parser = parser_for("ab\n ");
    parser.parse_identifier().unwrap();
    let error = ParseError::from_kind(&parser, ParseErrorKind::UnexpectedEOF);
    assert_eq!(error.kind, ParseErrorKind::UnexpectedEOF);
    assert_eq!(error.msg, "Parsing error: UnexpectedEOF");
    assert_eq!(error.position, at(2, 0, 2));
    parser.skip_whitespace();
    let error = ParseError::from_kind(&parser, ParseErrorKind::UnexpectedEOF);
    assert_eq!(error.position, at(4, 1, 1));

    let parser = Parser::new(Vec::new());
    assert_eq!(ParseError::unexpected_token(&parser).position, at(0, 0, 0));
}

#[test]
fn parses_tokens_made_by_hand() {
    let tokens = Token::from_kinds(&vec![
        TokenKind::Keyword(Keyword::Type),
        TokenKind::Identifier(String::from("byte")),
        TokenKind::Equal,
        TokenKind::Keyword(Keyword::U8),
        TokenKind::SemiColon,
    ]);
    assert_eq!(
        parse(tokens).unwrap(),
        vec![Statement::TypeDeclaration(TypeDeclaration {
            identifier: String::from("byte"),
            ty: Type::U8,
        })]
    );
}

#[test]
fn compiler_error_wraps_both_kinds() {
    let lex = opal::LexError::new(opal::LexErrorKind::UnexpectedEOF, at(1, 0, 1));
    assert!(matches!(CompilerError::from(lex), CompilerError::LexError(_)));
    let parser = Parser::new(Vec::new());
    let error = ParseError::from_kind(&parser, ParseErrorKind::UnexpectedEOF);
    assert!(matches!(CompilerError::from(error), CompilerError::ParseError(_)));
}
