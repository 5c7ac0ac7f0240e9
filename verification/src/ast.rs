use vstd::prelude::*;

use crate::token::{IntegerLiteralKind, Keyword};

verus! {

/// A type of the language. The parser yields the four scalar types only;
/// the other shapes are declared for what is built on top of it.
#[derive(Debug, PartialEq)]
pub enum Type {
    U8,
    I8,
    U16,
    I16,
    Custom(String),
    Pointer(Box<Type>),
    Array(Box<Type>, u16),
    FunctionPointer(Option<Vec<Box<Type>>>, Option<Box<Type>>),
    VariadicFunctionPointer(Vec<Box<Type>>, Option<Box<Type>>),
}

/// An expression. Integer literals are the only ones so far.
#[derive(Debug, Clone, Copy, PartialEq, Eq, Structural)]
pub enum Expression {
    IntegerLiteral(IntegerLiteralKind, u16),
}

/// A name with its type, as in `x: u8`.
#[derive(Debug, PartialEq)]
pub struct Field {
    pub identifier: String,
    pub field_type: Type,
}

/// A constant or a variable: `const x: u8 = 5;` or `var x: u8 = 5;`.
#[derive(Debug, PartialEq)]
pub struct ConstantVariableDeclaration {
    pub is_var: bool,
    pub identifier: String,
    pub const_type: Type,
    pub value: Expression,
}

/// A function. The parser does not read functions yet.
#[derive(Debug, PartialEq)]
pub struct FunctionDeclaration {
    pub identifier: String,
    pub parameters: Vec<Field>,
    pub return_type: Option<Type>,
}

/// A struct or a union: `struct P { x: u8, y: u8 }`.
#[derive(Debug, PartialEq)]
pub struct StructUnionDeclaration {
    pub is_union: bool,
    pub identifier: String,
    pub fields: Vec<Field>,
}

/// An enumeration. The parser does not read enumerations yet.
#[derive(Debug, PartialEq)]
pub struct EnumDeclaration {
    pub identifier: String,
    pub variants: Vec<String>,
}

/// A name for a type: `type byte = u8;`.
#[derive(Debug, PartialEq)]
pub struct TypeDeclaration {
    pub identifier: String,
    pub ty: Type,
}

/// A declaration at the top level of a program.
#[derive(Debug, PartialEq)]
pub enum Statement {
    ConstantDeclaration(ConstantVariableDeclaration),
    VariableDeclaration(ConstantVariableDeclaration),
    FunctionDeclaration(FunctionDeclaration),
    StructDeclaration(StructUnionDeclaration),
    UnionDeclaration(StructUnionDeclaration),
    EnumDeclaration(EnumDeclaration),
    TypeDeclaration(TypeDeclaration),
}

/// The scalar type that the reserved word `keyword` names, if it names one.
pub open spec fn scalar_type(keyword: Keyword) -> Option<Type> {
    match keyword {
        Keyword::U8 => Some(Type::U8),
        Keyword::I8 => Some(Type::I8),
        Keyword::U16 => Some(Type::U16),
        Keyword::I16 => Some(Type::I16),
        _ => None,
    }
}

/// The mathematical value of a [`Field`].
pub struct FieldView {
    pub identifier: Seq<char>,
    pub field_type: Type,
}

impl View for Field {
    type V = FieldView;

    open spec fn view(&self) -> FieldView {
        FieldView { identifier: self.identifier@, field_type: self.field_type }
    }
}

/// The views of a sequence of fields, one by one.
pub open spec fn field_views(fields: Seq<Field>) -> Seq<FieldView> {
    fields.map_values(|field: Field| field@)
}

/// The mathematical value of a [`ConstantVariableDeclaration`].
pub struct ConstantVariableView {
    pub is_var: bool,
    pub identifier: Seq<char>,
    pub const_type: Type,
    pub value: Expression,
}

impl View for ConstantVariableDeclaration {
    type V = ConstantVariableView;

    open spec fn view(&self) -> ConstantVariableView {
        ConstantVariableView {
            is_var: self.is_var,
            identifier: self.identifier@,
            const_type: self.const_type,
            value: self.value,
        }
    }
}

/// The mathematical value of a [`StructUnionDeclaration`].
pub struct StructUnionView {
    pub is_union: bool,
    pub identifier: Seq<char>,
    pub fields: Seq<FieldView>,
}

impl View for StructUnionDeclaration {
    type V = StructUnionView;

    open spec fn view(&self) -> StructUnionView {
        StructUnionView {
            is_union: self.is_union,
            identifier: self.identifier@,
            fields: field_views(self.fields@),
        }
    }
}

/// The mathematical value of a [`TypeDeclaration`].
pub struct TypeDeclarationView {
    pub identifier: Seq<char>,
    pub ty: Type,
}

impl View for TypeDeclaration {
    type V = TypeDeclarationView;

    open spec fn view(&self) -> TypeDeclarationView {
        TypeDeclarationView { identifier: self.identifier@, ty: self.ty }
    }
}

/// The mathematical value of a [`FunctionDeclaration`].
pub struct FunctionView {
    pub identifier: Seq<char>,
    pub parameters: Seq<FieldView>,
    pub return_type: Option<Type>,
}

impl View for FunctionDeclaration {
    type V = FunctionView;

    open spec fn view(&self) -> FunctionView {
        FunctionView {
            identifier: self.identifier@,
            parameters: field_views(self.parameters@),
            return_type: self.return_type,
        }
    }
}

/// The mathematical value of an [`EnumDeclaration`].
pub struct EnumView {
    pub identifier: Seq<char>,
    pub variants: Seq<Seq<char>>,
}

impl View for EnumDeclaration {
    type V = EnumView;

    open spec fn view(&self) -> EnumView {
        EnumView {
            identifier: self.identifier@,
            variants: self.variants@.map_values(|variant: String| variant@),
        }
    }
}

/// The mathematical value of a [`Statement`].
pub enum StatementView {
    ConstantDeclaration(ConstantVariableView),
    VariableDeclaration(ConstantVariableView),
    FunctionDeclaration(FunctionView),
    StructDeclaration(StructUnionView),
    UnionDeclaration(StructUnionView),
    EnumDeclaration(EnumView),
    TypeDeclaration(TypeDeclarationView),
}

impl View for Statement {
    type V = StatementView;

    open spec fn view(&self) -> StatementView {
        match *self {
            Statement::ConstantDeclaration(declaration) => StatementView::ConstantDeclaration(
                declaration@,
            ),
            Statement::VariableDeclaration(declaration) => StatementView::VariableDeclaration(
                declaration@,
            ),
            Statement::FunctionDeclaration(declaration) => StatementView::FunctionDeclaration(
                declaration@,
            ),
            Statement::StructDeclaration(declaration) => StatementView::StructDeclaration(
                declaration@,
            ),
            Statement::UnionDeclaration(declaration) => StatementView::UnionDeclaration(
                declaration@,
            ),
            Statement::EnumDeclaration(declaration) => StatementView::EnumDeclaration(declaration@),
            Statement::TypeDeclaration(declaration) => StatementView::TypeDeclaration(declaration@),
        }
    }
}

/// The views of a sequence of statements, one by one.
pub open spec fn statement_views(statements: Seq<Statement>) -> Seq<StatementView> {
    statements.map_values(|statement: Statement| statement@)
}

} // verus!
