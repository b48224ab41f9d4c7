//! The typed tree handed to the lowering engines.
//!
//! The tree is produced upstream (parser and semantic analysis) and is read only
//! here. Every node that can be the subject of a diagnostic carries a `Span`.
use vstd::prelude::*;

verus! {

/// A byte range of the source text.
#[derive(Clone, Copy, Debug, PartialEq, Eq, Structural)]
pub struct Span {
    pub start: usize,
    pub end: usize,
}

impl Span {
    pub fn new(start: usize, end: usize) -> (r: Span)
        ensures
            r.start == start,
            r.end == end,
    {
        Span { start, end }
    }
}

/// A static type.
#[derive(Debug)]
pub struct Type {
    pub span: Span,
    pub type_kind: TypeKind,
    pub generics: Vec<Type>,
}

impl Type {
    pub fn new(span: Span, type_kind: TypeKind, generics: Vec<Type>) -> (r: Type)
        ensures
            r.span == span,
            r.type_kind == type_kind,
            r.generics == generics,
    {
        Type { span, type_kind, generics }
    }
}

/// The shape of a static type.
#[derive(Debug)]
pub enum TypeKind {
    /// `(type,*)`
    Tuple(Vec<Type>),
    /// `[type:size]`
    List(Box<Type>, usize),
    /// `func(type,*) : type`, with a flag for a variadic tail
    Function(Vec<Type>, Box<Type>, bool),
    /// `*type`
    Pointer(Box<Type>),
    /// `()`
    Unit,
    /// `int`
    Int,
    /// `float`
    Float,
    /// `bool`
    Bool,
    /// `char`
    Char,
    /// `string:size`
    String(u32),
    /// an anonymous struct, field name to field type
    Struct(Vec<(String, Type)>),
    /// `struct name`, a struct declared earlier in the unit
    StructInstance(String),
}

/// An identifier as written in the source.
#[derive(Clone, Debug)]
pub struct Ident {
    pub name: String,
    pub span: Span,
}

/// A literal or a name.
#[derive(Debug)]
pub enum Constant {
    Int(i64),
    /// the IEEE-754 bit pattern of a 64-bit float literal
    Float(u64),
    Bool(bool),
    StringLiteral(String),
    List(Vec<Expression>),
    Ident(Ident),
    Null,
}

/// Binary operators of the surface language.
#[derive(Clone, Copy, Debug, PartialEq, Eq, Structural)]
pub enum BinOpKind {
    Add,
    Sub,
    Mul,
    Div,
    Mod,
    Eq,
    Neq,
    Lt,
    Gt,
    Lte,
    Gte,
    And,
    Or,
}

#[derive(Debug)]
pub struct Call {
    pub name: String,
    pub arguments: Vec<Expression>,
    pub span: Span,
}

/// `&expr`
#[derive(Debug)]
pub struct Reference {
    pub expr: Box<Expression>,
    pub span: Span,
}

/// `*expr`
#[derive(Debug)]
pub struct Deref {
    pub expr: Box<Expression>,
    pub span: Span,
}

#[derive(Debug)]
pub struct BinOp {
    pub op: BinOpKind,
    pub lhs: Box<Expression>,
    pub rhs: Box<Expression>,
    pub span: Span,
}

#[derive(Debug)]
pub enum Expression {
    Call(Call),
    Constant(Constant),
    Reference(Reference),
    Deref(Deref),
    BinOp(BinOp),
    StructInstance(StructInstance),
    StructFieldAccess(StructFieldAccess),
}

/// `struct name { field: type, ... }`
#[derive(Debug)]
pub struct StructStmt {
    pub name: String,
    pub fields: Vec<StructField>,
    pub span: Span,
}

impl StructStmt {
    pub fn new(name: String, fields: Vec<StructField>, span: Span) -> (r: Self)
        ensures
            r.name == name,
            r.fields == fields,
            r.span == span,
    {
        Self { name, fields, span }
    }
}

#[derive(Debug)]
pub struct StructField {
    pub name: String,
    pub ty: Type,
    pub span: Span,
}

impl StructField {
    pub fn new(name: String, ty: Type, span: Span) -> (r: Self)
        ensures
            r.name == name,
            r.ty == ty,
            r.span == span,
    {
        Self { name, ty, span }
    }
}

/// `name { field: value, ... }`
#[derive(Debug)]
pub struct StructInstance {
    pub name: String,
    pub fields: Vec<StructFieldInstance>,
    pub span: Span,
}

impl StructInstance {
    pub fn new(name: String, fields: Vec<StructFieldInstance>, span: Span) -> (r: Self)
        ensures
            r.name == name,
            r.fields == fields,
            r.span == span,
    {
        Self { name, fields, span }
    }
}

#[derive(Debug)]
pub struct StructFieldInstance {
    pub name: String,
    pub value: Expression,
    pub span: Span,
}

impl StructFieldInstance {
    pub fn new(name: String, value: Expression, span: Span) -> (r: Self)
        ensures
            r.name == name,
            r.value == value,
            r.span == span,
    {
        Self { name, value, span }
    }
}

/// `base.field`, or `base->field` when `is_ptr` is set.
#[derive(Debug)]
pub struct StructFieldAccess {
    pub name: Box<Expression>,
    pub field: String,
    pub is_ptr: bool,
    pub span: Span,
}

impl StructFieldAccess {
    pub fn new(name: Expression, field: String, is_ptr: bool, span: Span) -> (r: Self)
        ensures
            *r.name == name,
            r.field == field,
            r.is_ptr == is_ptr,
            r.span == span,
    {
        Self { name: Box::new(name), field, is_ptr, span }
    }
}

#[derive(Debug)]
pub struct Argument {
    pub name: String,
    pub ty: Type,
    pub span: Span,
}

/// The signature of a function defined elsewhere.
#[derive(Debug)]
pub struct FunctionSign {
    pub name: String,
    pub arguments: Vec<Argument>,
    pub return_type: Type,
    pub is_var_args: bool,
    pub span: Span,
}

/// `extern { sign; ... }`
#[derive(Debug)]
pub struct External {
    pub span: Span,
    pub signs: Vec<FunctionSign>,
}

impl External {
    pub fn new(span: Span, signs: Vec<FunctionSign>) -> (r: Self)
        ensures
            r.span() == span,
            r.signs == signs,
    {
        Self { span, signs }
    }

    pub open spec fn spec_span(&self) -> Span {
        self.span
    }

    #[verifier::when_used_as_spec(spec_span)]
    pub fn span(&self) -> (r: Span)
        ensures
            r == self.span,
    {
        self.span
    }
}

#[derive(Debug)]
pub struct Function {
    pub name: String,
    pub arguments: Vec<Argument>,
    pub returntype: Type,
    pub body: Vec<Statement>,
    pub is_var_args: bool,
    pub span: Span,
}

#[derive(Debug)]
pub struct LetStmt {
    pub name: Ident,
    pub value: Expression,
    pub span: Span,
}

#[derive(Debug)]
pub struct Return {
    pub expression: Option<Box<Expression>>,
    pub span: Span,
}

/// `target = value`
#[derive(Debug)]
pub struct Assign {
    pub name: Expression,
    pub value: Expression,
    pub span: Span,
}

#[derive(Debug)]
pub struct Block {
    pub statements: Vec<Statement>,
    pub span: Span,
}

#[derive(Debug)]
pub struct If {
    pub condition: Expression,
    pub body: Box<Statement>,
    pub span: Span,
}

#[derive(Debug)]
pub struct IfElse {
    pub condition: Expression,
    pub body: Box<Statement>,
    pub else_body: Box<Statement>,
    pub span: Span,
}

#[derive(Debug)]
pub struct While {
    pub condition: Expression,
    pub body: Box<Statement>,
    pub span: Span,
}

#[derive(Debug)]
pub enum Statement {
    Function(Function),
    Extern(External),
    Let(LetStmt),
    Return(Return),
    Assign(Assign),
    Struct(StructStmt),
    Expression(Expression),
    Block(Block),
    If(If),
    IfElse(IfElse),
    While(While),
}

} // verus!
