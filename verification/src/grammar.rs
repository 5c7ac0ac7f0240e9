use vstd::prelude::*;

use crate::ast::{
    scalar_type, ConstantVariableView, Expression, FieldView, StatementView, StructUnionView, Type,
    TypeDeclarationView,
};
use crate::position::TextPosition;
use crate::token::{Keyword, KindView, TokenKind, TokenView};

verus! {

/// Why the parser could not go on.
#[derive(Debug, Clone, Copy, PartialEq, Eq, Structural)]
pub enum ParseErrorKind {
    /// A token is there, but not one that the rule allows at this place.
    UnexpectedToken,
    /// The tokens ended where the rule needs one more.
    UnexpectedEOF,
}

/// What reading one piece of the grammar at some index of the tokens yields.
pub enum Parsed<T> {
    /// The piece is there: its value, and the index behind its last token.
    Match { value: T, next: int },
    /// The token at index `at` does not start the piece. Nothing has been
    /// read, so another piece may be tried at the same place.
    Mismatch { at: int },
    /// The piece has started and cannot be completed, or the tokens have
    /// ended: the token at index `at` is wrong or missing.
    Failure { kind: ParseErrorKind, at: int },
}

impl<T> Parsed<T> {
    /// The kind of error that stands for this outcome, where it is no
    /// match.
    pub open spec fn kind(self) -> ParseErrorKind {
        match self {
            Parsed::Failure { kind, .. } => kind,
            _ => ParseErrorKind::UnexpectedToken,
        }
    }

    /// The index of the token that is wrong or missing, where the outcome
    /// is no match.
    pub open spec fn at(self) -> int {
        match self {
            Parsed::Match { next, .. } => next,
            Parsed::Mismatch { at } => at,
            Parsed::Failure { at, .. } => at,
        }
    }

    /// The same outcome for a piece that had already started: what was a
    /// mismatch is a failure now.
    pub open spec fn fail<U>(self) -> Parsed<U> {
        Parsed::Failure { kind: self.kind(), at: self.at() }
    }

    /// The same outcome for the piece that this one starts: a mismatch
    /// stays a mismatch.
    pub open spec fn pass<U>(self) -> Parsed<U> {
        match self {
            Parsed::Mismatch { at } => Parsed::Mismatch { at },
            _ => self.fail(),
        }
    }
}

/// The index of the first token at or after `from` that is not whitespace,
/// or the number of tokens where only whitespace is left.
pub open spec fn skip_blank(tokens: Seq<TokenView>, from: int) -> int
    decreases tokens.len() - from,
{
    if 0 <= from < tokens.len() && tokens[from].kind is Whitespace {
        skip_blank(tokens, from + 1)
    } else {
        from
    }
}

/// What `skip_blank` skips is whitespace, and it stops at the first token
/// that is not.
pub proof fn lemma_skip_blank(tokens: Seq<TokenView>, from: int)
    requires
        0 <= from <= tokens.len(),
    ensures
        from <= skip_blank(tokens, from) <= tokens.len(),
        forall|i: int|
            from <= i < skip_blank(tokens, from) ==> (#[trigger] tokens[i]).kind is Whitespace,
        skip_blank(tokens, from) < tokens.len() ==> !(tokens[skip_blank(
            tokens,
            from,
        )].kind is Whitespace),
        skip_blank(tokens, skip_blank(tokens, from)) == skip_blank(tokens, from),
    decreases tokens.len() - from,
{
    if from < tokens.len() && tokens[from].kind is Whitespace {
        lemma_skip_blank(tokens, from + 1);
    }
}

/// The place that an error about the token at index `at` points to: the
/// start of that token, or, where the tokens have ended, the end of the last
/// one.
pub open spec fn fault_place(tokens: Seq<TokenView>, at: int) -> TextPosition {
    if 0 <= at < tokens.len() {
        tokens[at].position.start
    } else if tokens.len() > 0 {
        tokens.last().position.end
    } else {
        TextPosition { absolute: 0, line: 0, column: 0 }
    }
}

/// The message of an error of the given kind.
pub open spec fn fault_message(kind: ParseErrorKind) -> Seq<char> {
    match kind {
        ParseErrorKind::UnexpectedToken => "Unexpected token"@,
        ParseErrorKind::UnexpectedEOF => "Parsing error: UnexpectedEOF"@,
    }
}

/// What reading the one token at index `from` yields, where `value` holds
/// what that token gives if it is of the kind asked for: a failure where the
/// tokens have ended, a match that moves by one where the token is of that
/// kind, a mismatch at `from` otherwise. No token but the one at `from` is
/// looked at.
pub open spec fn spec_one<T>(tokens: Seq<TokenView>, from: int, value: Option<T>) -> Parsed<T> {
    if from < 0 || from >= tokens.len() {
        Parsed::Failure { kind: ParseErrorKind::UnexpectedEOF, at: from }
    } else {
        match value {
            Some(value) => Parsed::Match { value, next: from + 1 },
            None => Parsed::Mismatch { at: from },
        }
    }
}

/// A whitespace token at index `from`: its number of line breaks.
pub open spec fn spec_whitespace(tokens: Seq<TokenView>, from: int) -> Parsed<usize> {
    spec_one(
        tokens,
        from,
        match tokens[from].kind {
            KindView::Whitespace(breaks) => Some(breaks),
            _ => None,
        },
    )
}

/// The token of kind `target` at index `from`.
pub open spec fn spec_token(tokens: Seq<TokenView>, from: int, target: KindView) -> Parsed<()> {
    spec_one(
        tokens,
        from,
        if tokens[from].kind == target {
            Some(())
        } else {
            None
        },
    )
}

/// The reserved word `keyword` at index `from`.
pub open spec fn spec_keyword(tokens: Seq<TokenView>, from: int, keyword: Keyword) -> Parsed<()> {
    spec_token(tokens, from, KindView::Keyword(keyword))
}

/// An identifier at index `from`: its text.
pub open spec fn spec_identifier(tokens: Seq<TokenView>, from: int) -> Parsed<Seq<char>> {
    spec_one(
        tokens,
        from,
        match tokens[from].kind {
            KindView::Identifier(text) => Some(text),
            _ => None,
        },
    )
}

/// `Type := "u8" | "i8" | "u16" | "i16"`, at index `from`.
pub open spec fn spec_type(tokens: Seq<TokenView>, from: int) -> Parsed<Type> {
    spec_one(
        tokens,
        from,
        match tokens[from].kind {
            KindView::Keyword(keyword) => scalar_type(keyword),
            _ => None,
        },
    )
}

/// `Expression := IntegerLiteral`, at index `from`.
pub open spec fn spec_expression(tokens: Seq<TokenView>, from: int) -> Parsed<Expression> {
    spec_one(
        tokens,
        from,
        match tokens[from].kind {
            KindView::IntegerLiteral(kind, value) => Some(Expression::IntegerLiteral(kind, value)),
            _ => None,
        },
    )
}

/// `Field := Identifier ":" Type`
///
/// Like every rule that is made of several pieces, this one passes over the
/// whitespace before each of its pieces.
pub open spec fn spec_field(tokens: Seq<TokenView>, from: int) -> Parsed<FieldView> {
    let name = spec_identifier(tokens, skip_blank(tokens, from));
    if !(name is Match) {
        name.pass()
    } else {
        let colon = spec_token(
            tokens,
            skip_blank(tokens, name->next),
            KindView::Plain(TokenKind::Colon),
        );
        if !(colon is Match) {
            colon.fail()
        } else {
            let ty = spec_type(tokens, skip_blank(tokens, colon->next));
            if !(ty is Match) {
                ty.fail()
            } else {
                Parsed::Match {
                    value: FieldView { identifier: name->value, field_type: ty->value },
                    next: ty->next,
                }
            }
        }
    }
}

/// The reserved word `keyword`, then an identifier: the identifier's text.
pub open spec fn spec_keyword_with_identifier(
    tokens: Seq<TokenView>,
    from: int,
    keyword: Keyword,
) -> Parsed<Seq<char>> {
    let word = spec_keyword(tokens, skip_blank(tokens, from), keyword);
    if !(word is Match) {
        word.pass()
    } else {
        let name = spec_identifier(tokens, skip_blank(tokens, word->next));
        if !(name is Match) {
            name.fail()
        } else {
            name
        }
    }
}

/// `ConstDecl := "const" Field "=" Expression ";"` and
/// `VarDecl := "var" Field "=" Expression ";"`
pub open spec fn spec_const_or_var(tokens: Seq<TokenView>, from: int, is_var: bool) -> Parsed<
    ConstantVariableView,
> {
    let word = spec_keyword(
        tokens,
        skip_blank(tokens, from),
        if is_var {
            Keyword::Var
        } else {
            Keyword::Const
        },
    );
    if !(word is Match) {
        word.pass()
    } else {
        let field = spec_field(tokens, word->next);
        if !(field is Match) {
            field.fail()
        } else {
            let equal = spec_token(
                tokens,
                skip_blank(tokens, field->next),
                KindView::Plain(TokenKind::Equal),
            );
            if !(equal is Match) {
                equal.fail()
            } else {
                let value = spec_expression(tokens, skip_blank(tokens, equal->next));
                if !(value is Match) {
                    value.fail()
                } else {
                    let end = spec_token(
                        tokens,
                        skip_blank(tokens, value->next),
                        KindView::Plain(TokenKind::SemiColon),
                    );
                    if !(end is Match) {
                        end.fail()
                    } else {
                        Parsed::Match {
                            value: ConstantVariableView {
                                is_var,
                                identifier: field->value.identifier,
                                const_type: field->value.field_type,
                                value: value->value,
                            },
                            next: end->next,
                        }
                    }
                }
            }
        }
    }
}

/// The rest of a list of fields, where a field has to come next: that
/// field, then either `,` and the rest of the list, or the closing `}`.
/// `fields` holds the fields read before.
pub open spec fn spec_more_fields(
    tokens: Seq<TokenView>,
    from: int,
    fields: Seq<FieldView>,
) -> Parsed<Seq<FieldView>>
    decreases tokens.len() - from,
{
    let field = spec_field(tokens, from);
    if !(field is Match) {
        field.fail()
    } else {
        let after = skip_blank(tokens, field->next);
        let comma = spec_token(tokens, after, KindView::Plain(TokenKind::Comma));
        if comma is Match {
            if from < comma->next <= tokens.len() {
                spec_more_fields(tokens, comma->next, fields.push(field->value))
            } else {
                Parsed::Failure { kind: ParseErrorKind::UnexpectedEOF, at: from }
            }
        } else {
            let close = spec_token(tokens, after, KindView::Plain(TokenKind::RightBrace));
            if !(close is Match) {
                close.fail()
            } else {
                Parsed::Match { value: fields.push(field->value), next: close->next }
            }
        }
    }
}

/// The fields of a struct or union and the closing brace: `}` at once, or
/// `Field ("," Field)* "}"`.
pub open spec fn spec_fields(tokens: Seq<TokenView>, from: int) -> Parsed<Seq<FieldView>> {
    let at = skip_blank(tokens, from);
    let close = spec_token(tokens, at, KindView::Plain(TokenKind::RightBrace));
    if close is Match {
        Parsed::Match { value: Seq::empty(), next: close->next }
    } else {
        spec_more_fields(tokens, at, Seq::empty())
    }
}

/// `StructDecl := "struct" Identifier "{" (Field ("," Field)*)? "}"` and
/// `UnionDecl := "union" Identifier "{" (Field ("," Field)*)? "}"`
pub open spec fn spec_struct_or_union(tokens: Seq<TokenView>, from: int, is_union: bool) -> Parsed<
    StructUnionView,
> {
    let name = spec_keyword_with_identifier(
        tokens,
        from,
        if is_union {
            Keyword::Union
        } else {
            Keyword::Struct
        },
    );
    if !(name is Match) {
        name.pass()
    } else {
        let open = spec_token(
            tokens,
            skip_blank(tokens, name->next),
            KindView::Plain(TokenKind::LeftBrace),
        );
        if !(open is Match) {
            open.fail()
        } else {
            let fields = spec_fields(tokens, open->next);
            if !(fields is Match) {
                fields.fail()
            } else {
                Parsed::Match {
                    value: StructUnionView {
                        is_union,
                        identifier: name->value,
                        fields: fields->value,
                    },
                    next: fields->next,
                }
            }
        }
    }
}

/// `TypeDecl := "type" Identifier "=" Type ";"`
pub open spec fn spec_type_decl(tokens: Seq<TokenView>, from: int) -> Parsed<TypeDeclarationView> {
    let name = spec_keyword_with_identifier(tokens, from, Keyword::Type);
    if !(name is Match) {
        name.pass()
    } else {
        let equal = spec_token(
            tokens,
            skip_blank(tokens, name->next),
            KindView::Plain(TokenKind::Equal),
        );
        if !(equal is Match) {
            equal.fail()
        } else {
            let ty = spec_type(tokens, skip_blank(tokens, equal->next));
            if !(ty is Match) {
                ty.fail()
            } else {
                let end = spec_token(
                    tokens,
                    skip_blank(tokens, ty->next),
                    KindView::Plain(TokenKind::SemiColon),
                );
                if !(end is Match) {
                    end.fail()
                } else {
                    Parsed::Match {
                        value: TypeDeclarationView { identifier: name->value, ty: ty->value },
                        next: end->next,
                    }
                }
            }
        }
    }
}

/// A rule that is not part of the grammar yet, such as the ones for
/// functions and enumerations: it never matches, whatever token stands at
/// index `from`.
pub open spec fn spec_unimplemented<T>(tokens: Seq<TokenView>, from: int) -> Parsed<T> {
    Parsed::Mismatch { at: from }
}

/// `Declaration := ConstDecl | VarDecl | FnDecl | StructDecl | UnionDecl |
/// EnumDecl | TypeDecl`
///
/// The rules are tried in this order. A mismatch lets the next rule try; a
/// match or a failure ends the search. Where no rule matches, the token at
/// hand is unexpected. The rules for functions and enumerations never
/// match, so they leave no trace here.
pub open spec fn spec_declaration(tokens: Seq<TokenView>, from: int) -> Parsed<StatementView> {
    let constant = spec_const_or_var(tokens, from, false);
    let variable = spec_const_or_var(tokens, from, true);
    let structure = spec_struct_or_union(tokens, from, false);
    let union = spec_struct_or_union(tokens, from, true);
    let alias = spec_type_decl(tokens, from);
    if constant is Match {
        Parsed::Match {
            value: StatementView::ConstantDeclaration(constant->value),
            next: constant->next,
        }
    } else if constant is Failure {
        constant.fail()
    } else if variable is Match {
        Parsed::Match {
            value: StatementView::VariableDeclaration(variable->value),
            next: variable->next,
        }
    } else if variable is Failure {
        variable.fail()
    } else if structure is Match {
        Parsed::Match {
            value: StatementView::StructDeclaration(structure->value),
            next: structure->next,
        }
    } else if structure is Failure {
        structure.fail()
    } else if union is Match {
        Parsed::Match { value: StatementView::UnionDeclaration(union->value), next: union->next }
    } else if union is Failure {
        union.fail()
    } else if alias is Match {
        Parsed::Match { value: StatementView::TypeDeclaration(alias->value), next: alias->next }
    } else {
        alias.fail()
    }
}

/// What parsing a whole program yields: the declarations that were read,
/// and the error that ended the reading, if one did.
pub struct Program {
    pub statements: Seq<StatementView>,
    pub fault: Option<(ParseErrorKind, int)>,
}

/// The declarations from index `from` on, one after the other, up to the
/// end of the tokens or to the first that fails. Whitespace after the last
/// declaration is no error.
pub open spec fn spec_program(tokens: Seq<TokenView>, from: int) -> Program
    decreases tokens.len() - from,
{
    if skip_blank(tokens, from) >= tokens.len() {
        Program { statements: Seq::empty(), fault: None }
    } else {
        let declaration = spec_declaration(tokens, from);
        if declaration is Match {
            if from < declaration->next <= tokens.len() {
                let rest = spec_program(tokens, declaration->next);
                Program {
                    statements: seq![declaration->value] + rest.statements,
                    fault: rest.fault,
                }
            } else {
                Program { statements: Seq::empty(), fault: None }
            }
        } else {
            Program {
                statements: Seq::empty(),
                fault: Some((declaration.kind(), declaration.at())),
            }
        }
    }
}

/// Reading a single token moves by one: the index behind a match is the
/// index where reading began and one more, and lies within the tokens.
pub proof fn lemma_token_advances(tokens: Seq<TokenView>, from: int)
    requires
        0 <= from <= tokens.len(),
    ensures
        forall|target: KindView| #[trigger]
            spec_token(tokens, from, target) matches Parsed::Match { next, .. } ==> next == from
                + 1 <= tokens.len(),
        spec_whitespace(tokens, from) matches Parsed::Match { next, .. } ==> next == from + 1
            <= tokens.len(),
        spec_identifier(tokens, from) matches Parsed::Match { next, .. } ==> next == from + 1
            <= tokens.len(),
        spec_type(tokens, from) matches Parsed::Match { next, .. } ==> next == from + 1
            <= tokens.len(),
        spec_expression(tokens, from) matches Parsed::Match { next, .. } ==> next == from + 1
            <= tokens.len(),
{
}

/// The token behind any whitespace is read like the token at the index:
/// `skip_blank` stays within the tokens, so a match behind it moves on.
proof fn lemma_behind_blank(tokens: Seq<TokenView>, from: int)
    requires
        0 <= from <= tokens.len(),
    ensures
        from <= skip_blank(tokens, from) <= tokens.len(),
        forall|target: KindView| #[trigger]
            spec_token(tokens, skip_blank(tokens, from), target) matches Parsed::Match {
                next,
                ..
            } ==> from < next <= tokens.len(),
        spec_identifier(tokens, skip_blank(tokens, from)) matches Parsed::Match { next, .. }
            ==> from < next <= tokens.len(),
        spec_type(tokens, skip_blank(tokens, from)) matches Parsed::Match { next, .. } ==> from
            < next <= tokens.len(),
        spec_expression(tokens, skip_blank(tokens, from)) matches Parsed::Match { next, .. }
            ==> from < next <= tokens.len(),
{
    lemma_skip_blank(tokens, from);
    lemma_token_advances(tokens, skip_blank(tokens, from));
}

/// Reading a field moves past it.
pub proof fn lemma_field_advances(tokens: Seq<TokenView>, from: int)
    requires
        0 <= from <= tokens.len(),
    ensures
        spec_field(tokens, from) matches Parsed::Match { next, .. } ==> from < next <= tokens.len(),
{
    lemma_behind_blank(tokens, from);
    let name = spec_identifier(tokens, skip_blank(tokens, from));
    if name is Match {
        lemma_behind_blank(tokens, name->next);
        let colon = spec_token(
            tokens,
            skip_blank(tokens, name->next),
            KindView::Plain(TokenKind::Colon),
        );
        if colon is Match {
            lemma_behind_blank(tokens, colon->next);
        }
    }
}

/// Reading the rest of a list of fields moves past it.
pub proof fn lemma_more_fields_advances(tokens: Seq<TokenView>, from: int, fields: Seq<FieldView>)
    requires
        0 <= from <= tokens.len(),
    ensures
        spec_more_fields(tokens, from, fields) matches Parsed::Match { next, .. } ==> from < next
            <= tokens.len(),
    decreases tokens.len() - from,
{
    lemma_field_advances(tokens, from);
    let field = spec_field(tokens, from);
    if field is Match {
        lemma_behind_blank(tokens, field->next);
        let comma = spec_token(
            tokens,
            skip_blank(tokens, field->next),
            KindView::Plain(TokenKind::Comma),
        );
        if comma is Match {
            lemma_more_fields_advances(tokens, comma->next, fields.push(field->value));
        }
    }
}

/// Reading a declaration moves past it: a match ends after the index where
/// reading began, and within the tokens. So a program is read to its end
/// one declaration after the other.
pub proof fn lemma_declaration_advances(tokens: Seq<TokenView>, from: int)
    requires
        0 <= from <= tokens.len(),
    ensures
        spec_const_or_var(tokens, from, false) matches Parsed::Match { next, .. } ==> from < next
            <= tokens.len(),
        spec_const_or_var(tokens, from, true) matches Parsed::Match { next, .. } ==> from < next
            <= tokens.len(),
        spec_struct_or_union(tokens, from, false) matches Parsed::Match { next, .. } ==> from
            < next <= tokens.len(),
        spec_struct_or_union(tokens, from, true) matches Parsed::Match { next, .. } ==> from < next
            <= tokens.len(),
        spec_type_decl(tokens, from) matches Parsed::Match { next, .. } ==> from < next
            <= tokens.len(),
        spec_declaration(tokens, from) matches Parsed::Match { next, .. } ==> from < next
            <= tokens.len(),
{
    lemma_const_or_var_advances(tokens, from, false);
    lemma_const_or_var_advances(tokens, from, true);
    lemma_struct_or_union_advances(tokens, from, false);
    lemma_struct_or_union_advances(tokens, from, true);
    lemma_type_decl_advances(tokens, from);
}

proof fn lemma_name_advances(tokens: Seq<TokenView>, from: int, keyword: Keyword)
    requires
        0 <= from <= tokens.len(),
    ensures
        spec_keyword_with_identifier(tokens, from, keyword) matches Parsed::Match { next, .. }
            ==> from < next <= tokens.len(),
{
    lemma_behind_blank(tokens, from);
    let word = spec_keyword(tokens, skip_blank(tokens, from), keyword);
    if word is Match {
        lemma_behind_blank(tokens, word->next);
    }
}

proof fn lemma_const_or_var_advances(tokens: Seq<TokenView>, from: int, is_var: bool)
    requires
        0 <= from <= tokens.len(),
    ensures
        spec_const_or_var(tokens, from, is_var) matches Parsed::Match { next, .. } ==> from < next
            <= tokens.len(),
{
    lemma_behind_blank(tokens, from);
    let word = spec_keyword(
        tokens,
        skip_blank(tokens, from),
        if is_var {
            Keyword::Var
        } else {
            Keyword::Const
        },
    );
    if word is Match {
        lemma_field_advances(tokens, word->next);
        let field = spec_field(tokens, word->next);
        if field is Match {
            lemma_behind_blank(tokens, field->next);
            let equal = spec_token(
                tokens,
                skip_blank(tokens, field->next),
                KindView::Plain(TokenKind::Equal),
            );
            if equal is Match {
                lemma_behind_blank(tokens, equal->next);
                let value = spec_expression(tokens, skip_blank(tokens, equal->next));
                if value is Match {
                    lemma_behind_blank(tokens, value->next);
                }
            }
        }
    }
}

proof fn lemma_struct_or_union_advances(tokens: Seq<TokenView>, from: int, is_union: bool)
    requires
        0 <= from <= tokens.len(),
    ensures
        spec_struct_or_union(tokens, from, is_union) matches Parsed::Match { next, .. } ==> from
            < next <= tokens.len(),
{
    let keyword = if is_union {
        Keyword::Union
    } else {
        Keyword::Struct
    };
    lemma_name_advances(tokens, from, keyword);
    let name = spec_keyword_with_identifier(tokens, from, keyword);
    if name is Match {
        lemma_behind_blank(tokens, name->next);
        let open = spec_token(
            tokens,
            skip_blank(tokens, name->next),
            KindView::Plain(TokenKind::LeftBrace),
        );
        if open is Match {
            lemma_behind_blank(tokens, open->next);
            lemma_more_fields_advances(tokens, skip_blank(tokens, open->next), Seq::empty());
        }
    }
}

proof fn lemma_type_decl_advances(tokens: Seq<TokenView>, from: int)
    requires
        0 <= from <= tokens.len(),
    ensures
        spec_type_decl(tokens, from) matches Parsed::Match { next, .. } ==> from < next
            <= tokens.len(),
{
    lemma_name_advances(tokens, from, Keyword::Type);
    let name = spec_keyword_with_identifier(tokens, from, Keyword::Type);
    if name is Match {
        lemma_behind_blank(tokens, name->next);
        let equal = spec_token(
            tokens,
            skip_blank(tokens, name->next),
            KindView::Plain(TokenKind::Equal),
        );
        if equal is Match {
            lemma_behind_blank(tokens, equal->next);
            let ty = spec_type(tokens, skip_blank(tokens, equal->next));
            if ty is Match {
                lemma_behind_blank(tokens, ty->next);
            }
        }
    }
}

} // verus!
