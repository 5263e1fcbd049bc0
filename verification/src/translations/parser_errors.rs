//! Why a token sequence was refused.
use vstd::prelude::*;
use crate::lexer::Token;

verus! {

/// The construct whose parsing failed, where a failure is reported inside it.
#[derive(Debug, Clone, Copy, PartialEq, Eq, Structural)]
pub enum Construct {
    Template,
    Object,
    Enum,
    Return,
    Match,
    Function,
    Loop,
    Identifier,
    UnionType,
    Condition,
    Index,
}

/// A parse error, with the token met where another was expected (`None`
/// for the end of the input).
#[derive(Debug)]
pub enum ParserError {
    VariableName(Option<Token>),
    OperatorError(char, Option<Token>),
    ArrayError(char, Option<Token>),
    ArrayEndError(Option<Token>),
    ArgsError(Option<Token>),
    TypeNotFound,
    Eof,
    VariableNotFound,
    StructInitError,
    StructInitColonError,
    StructNameNotFound(Option<Token>),
    LiteralNotFound(Token),
    ObjectTypeNotFound,
    ObjectUnknownToken(Token),
    TemplateTokenNotFound(Token),
    MethodName(Option<Token>),
    OtherError(Token, Option<Token>),
    UnionIdentifierNotFound(Option<Token>),
    UnionUnknownToken(Token),
    UnionNameNotFound(Option<Token>),
    EnumNewlineError(Option<Token>),
    EnumVariantNotFound(Token),
    UnexpectedToken(Token),
    UnknownFunction(Token),
    MatchError(Option<Token>),
    MatchUnknownToken(Token),
    FunctionName(Option<Token>),
    ParamNameNotFound(Option<Token>),
    ParamError(Option<Token>),
    /// A text, number or decimal standing alone at the top of a block.
    LiteralAtTopLevel,
    /// A token no expression can start with.
    UnknownToken(Token),
    /// A field or method name was expected after `.`.
    FieldOrMethodName,
    /// A failure inside the given construct.
    InContext(Construct, Box<ParserError>),
}

} // verus!
