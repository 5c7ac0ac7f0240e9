use vstd::prelude::*;
use vstd::std_specs::convert::FromSpecImpl;

use crate::ast::{statement_views, Statement, StatementView};
use crate::grammar::{fault_message, fault_place, spec_program, Program};
use crate::lexer::{
    lemma_lexing_tiles, lex_from, tiles, LexError, LexErrorKind, Lexed, Lexer, Lexing,
};
use crate::parser::{ParseError, Parser};
use crate::position::place;
use crate::token::{views, Token, TokenView};

verus! {

/// An error of the front end: one of the lexer or one of the parser.
#[derive(Debug, PartialEq)]
pub enum CompilerError {
    LexError(LexError),
    ParseError(ParseError),
}

impl From<LexError> for CompilerError {
    fn from(error: LexError) -> (wrapped: CompilerError) {
        CompilerError::LexError(error)
    }
}

impl FromSpecImpl<LexError> for CompilerError {
    open spec fn obeys_from_spec() -> bool {
        true
    }

    open spec fn from_spec(error: LexError) -> CompilerError {
        CompilerError::LexError(error)
    }
}

impl From<ParseError> for CompilerError {
    fn from(error: ParseError) -> (wrapped: CompilerError) {
        CompilerError::ParseError(error)
    }
}

impl FromSpecImpl<ParseError> for CompilerError {
    open spec fn obeys_from_spec() -> bool {
        true
    }

    open spec fn from_spec(error: ParseError) -> CompilerError {
        CompilerError::ParseError(error)
    }
}

/// The result of a phase: all of its output, or the error that stopped it
/// together with the output up to there.
pub type CompilerResult<T> = Result<T, (CompilerError, T)>;

/// The tokens of `input`, whitespace included. Lexing stops at the first
/// error; the tokens before it come with the error.
pub fn tokenize(input: &str) -> (result: CompilerResult<Vec<Token>>)
    ensures
        match result {
            Ok(tokens) => {
                &&& views(tokens@) == lex_from(input@, 0).tokens
                &&& lex_from(input@, 0).fault matches Lexed::Fault { error, .. }
                &&& error == LexErrorKind::InputExhausted
                &&& tiles(views(tokens@), input@, 0, input@.len() as int)
            },
            Err((CompilerError::LexError(e), tokens)) => {
                &&& views(tokens@) == lex_from(input@, 0).tokens
                &&& lex_from(input@, 0).fault matches Lexed::Fault { error, message, at, .. }
                &&& error != LexErrorKind::InputExhausted
                &&& e.kind == error
                &&& e.msg@ == message
                &&& e.position == place(input@, at)
                &&& tiles(views(tokens@), input@, 0, lex_from(input@, 0).end)
            },
            Err(_) => false,
        },
{
    let mut lexer = Lexer::new(input);
    let mut result: Vec<Token> = Vec::new();
    proof {
        lemma_lexing_tiles(input@, 0);
        assert(views(result@) + lex_from(input@, 0).tokens =~= lex_from(input@, 0).tokens);
    }
    loop
        invariant
            lexer.wf(),
            lexer.text() == input@,
            0 <= lexer.offset() <= input@.len() <= usize::MAX,
            lex_from(input@, 0) == (Lexing {
                tokens: views(result@) + lex_from(input@, lexer.offset()).tokens,
                ..lex_from(input@, lexer.offset())
            }),
            tiles(lex_from(input@, 0).tokens, input@, 0, lex_from(input@, 0).end),
        decreases input@.len() - lexer.offset(),
    {
        let ghost from = lexer.offset();
        let ghost read = views(result@);
        proof {
            lemma_lexing_tiles(input@, from);
        }
        match lexer.next_token() {
            Ok(token) => {
                proof {
                    let rest = lex_from(input@, lexer.offset());
                    assert(views(result@.push(token)) =~= read.push(token@));
                    assert(read.push(token@) + rest.tokens =~= read + (seq![token@] + rest.tokens));
                }
                result.push(token);
            },
            Err(error) => {
                proof {
                    assert(read + Seq::<TokenView>::empty() =~= read);
                }
                match error.kind {
                    LexErrorKind::InputExhausted => {
                        return Ok(result);
                    },
                    _ => {
                        return Err((CompilerError::from(error), result));
                    },
                }
            },
        }
    }
}

/// The declarations that `tokens` hold, in their order. Parsing stops at
/// the first declaration that cannot be read; the declarations before it
/// come with the error. Whitespace between and around the declarations is
/// passed over.
pub fn parse(tokens: Vec<Token>) -> (result: CompilerResult<Vec<Statement>>)
    ensures
        match result {
            Ok(statements) => {
                &&& statement_views(statements@) == spec_program(views(tokens@), 0).statements
                &&& spec_program(views(tokens@), 0).fault is None
            },
            Err((CompilerError::ParseError(e), statements)) => {
                &&& statement_views(statements@) == spec_program(views(tokens@), 0).statements
                &&& spec_program(views(tokens@), 0).fault matches Some((kind, at))
                &&& e.kind == kind
                &&& e.msg@ == fault_message(kind)
                &&& e.position == fault_place(views(tokens@), at)
            },
            Err(_) => false,
        },
{
    let ghost all = views(tokens@);
    let mut parser = Parser::new(tokens);
    let mut result: Vec<Statement> = Vec::new();
    proof {
        assert(statement_views(result@) + spec_program(all, 0).statements =~= spec_program(
            all,
            0,
        ).statements);
    }
    loop
        invariant
            parser.wf(),
            all == views(tokens@),
            parser@.tokens == all,
            spec_program(all, 0) == (Program {
                statements: statement_views(result@) + spec_program(all, parser@.index).statements,
                fault: spec_program(all, parser@.index).fault,
            }),
        decreases all.len() - parser@.index,
    {
        let ghost read = statement_views(result@);
        if parser.is_exhausted() {
            proof {
                assert(read + Seq::<StatementView>::empty() =~= read);
            }
            return Ok(result);
        }
        match parser.parse_declaration() {
            Ok((statement, _)) => {
                proof {
                    let rest = spec_program(all, parser@.index);
                    assert(statement_views(result@.push(statement)) =~= read.push(statement@));
                    assert(read.push(statement@) + rest.statements =~= read + (seq![statement@]
                        + rest.statements));
                }
                result.push(statement);
            },
            Err(err) => {
                proof {
                    assert(read + Seq::<StatementView>::empty() =~= read);
                }
                return Err((CompilerError::from(err), result));
            },
        }
    }
}

} // verus!
