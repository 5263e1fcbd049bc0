//! Why a program was refused by the validator.
use vstd::prelude::*;
use crate::parser::ast::Type;

verus! {

/// A checking error.
#[derive(Debug)]
pub enum ValidatorError {
    TypeInferenceFailed(String),
    TypeMismatch { expected: String, found: Type },
    DeclTypeMismatch { name: String, expected: Type, found: Type },
    UnknownExpression,
    AlreadyDecl(String),
    NotAnEnumVariant,
    DuplicateEnum(String),
    InvalidSumArgumentType,
    InvalidOneArgumentCount { name: String },
    InvalidTwoArgumentCount { name: String },
    InvalidZeroArgumentCount { name: String },
    InvalidArgumentCount { name: String, expected: usize, found: usize },
    DuplicateUnion(String),
    UndefinedVariable(String),
    IfConditionTypeMismatch(Type),
    IfConditionTypeUnknown,
    ElseIfConditionTypeMismatch(Type),
    LoopIterableTypeNotFound,
    LoopRequiresList,
    FunctionNotFound(String),
    FunctionArgCountMismatch { name: String, expected: usize, found: usize },
    NestedFunctionDefinition,
    FunctionReturnTypeNotFound { name: String },
    DuplicateStruct(String),
    IndexTargetTypeNotFound,
    DeclTypeUnknown,
    UnknownType(String),
    ImportError,
    UnknownStruct(String),
    /// No union or struct type of this name is declared.
    UnionNotFound(String),
}

} // verus!
