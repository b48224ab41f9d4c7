//! Errors of the lowering engines and of the bytecode codec.
use crate::ast::BinOpKind;
use vstd::prelude::*;

verus! {

/// A tree shape that a lowering engine has no form for.
#[derive(Clone, Copy, Debug, PartialEq, Eq, Structural)]
pub enum Construct {
    /// a statement that needs an enclosing function body
    StatementOutsideFunction,
    /// `return` without a value
    BareReturn,
    FunctionStatement,
    ExternStatement,
    StructStatement,
    ReturnStatement,
    FloatLiteral,
    ListLiteral,
    NullLiteral,
    Reference,
    Deref,
    StructInstance,
    StructFieldAccess,
    /// an operator with no lowered form
    Operator(BinOpKind),
    /// an arithmetic operand that is not an integer
    NonIntegerOperand,
    /// a dereference or `->` access of a value that is not a pointer
    NonPointerOperand,
    /// a field access on a value that is not a struct
    NonStructOperand,
    UnitType,
    CharType,
    TupleType,
    FunctionType,
    /// a block, branch or loop, which the register engine has no form for
    ControlFlowStatement,
    /// a count past what the engine can number
    TooLarge,
}

/// Why a unit could not be lowered. The first error aborts the unit.
#[derive(Clone, Debug, PartialEq)]
pub enum LowerError {
    UnresolvedStruct(String),
    UnresolvedVariable(String),
    /// struct name, then field name
    UnresolvedField(String, String),
    /// an assignment target that is not a storage location
    NotAnAddress,
    EmptyAggregateLiteral,
    UnsupportedConstruct(Construct),
}

/// The view of a `LowerError`: names are character sequences.
pub enum LowerErrorV {
    UnresolvedStruct(Seq<char>),
    UnresolvedVariable(Seq<char>),
    UnresolvedField(Seq<char>, Seq<char>),
    NotAnAddress,
    EmptyAggregateLiteral,
    UnsupportedConstruct(Construct),
}

impl View for LowerError {
    type V = LowerErrorV;

    open spec fn view(&self) -> LowerErrorV {
        match self {
            LowerError::UnresolvedStruct(s) => LowerErrorV::UnresolvedStruct(s@),
            LowerError::UnresolvedVariable(s) => LowerErrorV::UnresolvedVariable(s@),
            LowerError::UnresolvedField(s, f) => LowerErrorV::UnresolvedField(s@, f@),
            LowerError::NotAnAddress => LowerErrorV::NotAnAddress,
            LowerError::EmptyAggregateLiteral => LowerErrorV::EmptyAggregateLiteral,
            LowerError::UnsupportedConstruct(c) => LowerErrorV::UnsupportedConstruct(*c),
        }
    }
}

/// Why a byte stream is not an encoded instruction.
#[derive(Clone, Copy, Debug, PartialEq, Eq, Structural)]
pub enum DecodeError {
    /// the byte where an opcode was expected
    InvalidOpcode(u8),
    /// the byte where a literal kind was expected
    InvalidLiteralKind(u8),
    /// the byte where a flag (0 or 1) was expected
    InvalidFlag(u8),
    /// the stream ends inside an instruction
    Truncated,
    /// bytes remain after a complete instruction
    TrailingBytes,
}

} // verus!
