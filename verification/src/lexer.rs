//! The tokens the parser reads.
use vstd::prelude::*;
use crate::text::str_eq;

verus! {

/// A decimal literal with a fractional part: `mantissa / 10^scale`.
#[derive(Clone, Copy, Debug)]
pub struct FloatLit {
    pub mantissa: i64,
    pub scale: u32,
}

/// A token of an `az` source text.
#[derive(Debug)]
pub enum Token {
    Newline,
    Semicolon,
    Indent,
    Dedent,
    Import,
    Eof,
    StringLiteral(String),
    Number(i64),
    Float(FloatLit),
    Identifier(String),
    Operator(String),
    True,
    False,
    Backtick,
    InterpolationStart,
    InterpolationEnd,
    This,
    Object,
    Enum,
    Type,
    Method,
    End,
    ListStart,
    ListEnd,
    ConstantDecl,
    MutableDecl,
    Return,
    Match,
    Arrow,
    Underscore,
    FunctionDef,
    Loop,
    In,
    Conditional,
    ElseIf,
    Else,
    Dot,
    Comma,
    Colon,
    LParen,
    RParen,
    LBrace,
    RBrace,
    Print,
    Input,
    Len,
    NumberFn,
    Sum,
    RangeFn,
    LastWord,
    Sqrt,
    Timer,
    Max,
    Min,
    Mod,
    Round,
    Floor,
    Ceil,
    Zig,
    StrUpper,
    StrLower,
    StrReverse,
    Trim,
    ConvertString,
    Allocator,
    IntegerType,
    BigIntegerType,
    LowIntegerType,
    BoolType,
    NaturalType,
    StringType,
    CharType,
    FloatType,
    Void,
    ZigConstString,
    ZigString,
    ZigConstArray,
    ZigArray,
    ZigNatural,
    ZigFloat,
    ZigInteger,
    Value,
    Array,
}

/// Whether two tokens are the same token: same kind, and same text or number
/// for the kinds that carry one.
pub open spec fn token_same(a: Token, b: Token) -> bool {
    match (a, b) {
        (Token::StringLiteral(x), Token::StringLiteral(y)) => x@ == y@,
        (Token::Identifier(x), Token::Identifier(y)) => x@ == y@,
        (Token::Operator(x), Token::Operator(y)) => x@ == y@,
        (Token::Number(x), Token::Number(y)) => x == y,
        (Token::Float(x), Token::Float(y)) => x == y,
        (Token::StringLiteral(_), _) | (_, Token::StringLiteral(_)) => false,
        (Token::Identifier(_), _) | (_, Token::Identifier(_)) => false,
        (Token::Operator(_), _) | (_, Token::Operator(_)) => false,
        (Token::Number(_), _) | (_, Token::Number(_)) => false,
        (Token::Float(_), _) | (_, Token::Float(_)) => false,
        _ => token_tag(a) == token_tag(b),
    }
}

/// A number for each kind of token without a payload.
pub open spec fn token_tag(t: Token) -> int {
    match t {
        Token::Newline => 1,
        Token::Semicolon => 2,
        Token::Indent => 3,
        Token::Dedent => 4,
        Token::Import => 5,
        Token::Eof => 6,
        Token::True => 7,
        Token::False => 8,
        Token::Backtick => 9,
        Token::InterpolationStart => 10,
        Token::InterpolationEnd => 11,
        Token::This => 12,
        Token::Object => 13,
        Token::Enum => 14,
        Token::Type => 15,
        Token::Method => 16,
        Token::End => 17,
        Token::ListStart => 18,
        Token::ListEnd => 19,
        Token::ConstantDecl => 20,
        Token::MutableDecl => 21,
        Token::Return => 22,
        Token::Match => 23,
        Token::Arrow => 24,
        Token::Underscore => 25,
        Token::FunctionDef => 26,
        Token::Loop => 27,
        Token::In => 28,
        Token::Conditional => 29,
        Token::ElseIf => 30,
        Token::Else => 31,
        Token::Dot => 32,
        Token::Comma => 33,
        Token::Colon => 34,
        Token::LParen => 35,
        Token::RParen => 36,
        Token::LBrace => 37,
        Token::RBrace => 38,
        Token::Print => 39,
        Token::Input => 40,
        Token::Len => 41,
        Token::NumberFn => 42,
        Token::Sum => 43,
        Token::RangeFn => 44,
        Token::LastWord => 45,
        Token::Sqrt => 46,
        Token::Timer => 47,
        Token::Max => 48,
        Token::Min => 49,
        Token::Mod => 50,
        Token::Round => 51,
        Token::Floor => 52,
        Token::Ceil => 53,
        Token::Zig => 54,
        Token::StrUpper => 55,
        Token::StrLower => 56,
        Token::StrReverse => 57,
        Token::Trim => 58,
        Token::ConvertString => 59,
        Token::Allocator => 60,
        Token::IntegerType => 61,
        Token::BigIntegerType => 62,
        Token::LowIntegerType => 63,
        Token::BoolType => 64,
        Token::NaturalType => 65,
        Token::StringType => 66,
        Token::CharType => 67,
        Token::FloatType => 68,
        Token::Void => 69,
        Token::ZigConstString => 70,
        Token::ZigString => 71,
        Token::ZigConstArray => 72,
        Token::ZigArray => 73,
        Token::ZigNatural => 74,
        Token::ZigFloat => 75,
        Token::ZigInteger => 76,
        Token::Value => 77,
        Token::Array => 78,
        _ => 0,
    }
}


/// The number `token_tag` gives a token.
pub fn tag_of(t: &Token) -> (r: u8)
    ensures
        r as int == token_tag(*t),
{
    match t {
        Token::Newline => 1,
        Token::Semicolon => 2,
        Token::Indent => 3,
        Token::Dedent => 4,
        Token::Import => 5,
        Token::Eof => 6,
        Token::True => 7,
        Token::False => 8,
        Token::Backtick => 9,
        Token::InterpolationStart => 10,
        Token::InterpolationEnd => 11,
        Token::This => 12,
        Token::Object => 13,
        Token::Enum => 14,
        Token::Type => 15,
        Token::Method => 16,
        Token::End => 17,
        Token::ListStart => 18,
        Token::ListEnd => 19,
        Token::ConstantDecl => 20,
        Token::MutableDecl => 21,
        Token::Return => 22,
        Token::Match => 23,
        Token::Arrow => 24,
        Token::Underscore => 25,
        Token::FunctionDef => 26,
        Token::Loop => 27,
        Token::In => 28,
        Token::Conditional => 29,
        Token::ElseIf => 30,
        Token::Else => 31,
        Token::Dot => 32,
        Token::Comma => 33,
        Token::Colon => 34,
        Token::LParen => 35,
        Token::RParen => 36,
        Token::LBrace => 37,
        Token::RBrace => 38,
        Token::Print => 39,
        Token::Input => 40,
        Token::Len => 41,
        Token::NumberFn => 42,
        Token::Sum => 43,
        Token::RangeFn => 44,
        Token::LastWord => 45,
        Token::Sqrt => 46,
        Token::Timer => 47,
        Token::Max => 48,
        Token::Min => 49,
        Token::Mod => 50,
        Token::Round => 51,
        Token::Floor => 52,
        Token::Ceil => 53,
        Token::Zig => 54,
        Token::StrUpper => 55,
        Token::StrLower => 56,
        Token::StrReverse => 57,
        Token::Trim => 58,
        Token::ConvertString => 59,
        Token::Allocator => 60,
        Token::IntegerType => 61,
        Token::BigIntegerType => 62,
        Token::LowIntegerType => 63,
        Token::BoolType => 64,
        Token::NaturalType => 65,
        Token::StringType => 66,
        Token::CharType => 67,
        Token::FloatType => 68,
        Token::Void => 69,
        Token::ZigConstString => 70,
        Token::ZigString => 71,
        Token::ZigConstArray => 72,
        Token::ZigArray => 73,
        Token::ZigNatural => 74,
        Token::ZigFloat => 75,
        Token::ZigInteger => 76,
        Token::Value => 77,
        Token::Array => 78,
        _ => 0,
    }
}

/// Whether two tokens are the same token (the token comparison `==`).
pub fn token_eq(a: &Token, b: &Token) -> (r: bool)
    ensures
        r == token_same(*a, *b),
{
    match (a, b) {
        (Token::StringLiteral(x), Token::StringLiteral(y)) => str_eq(x.as_str(), y.as_str()),
        (Token::Identifier(x), Token::Identifier(y)) => str_eq(x.as_str(), y.as_str()),
        (Token::Operator(x), Token::Operator(y)) => str_eq(x.as_str(), y.as_str()),
        (Token::Number(x), Token::Number(y)) => *x == *y,
        (Token::Float(x), Token::Float(y)) => x.mantissa == y.mantissa && x.scale == y.scale,
        (Token::StringLiteral(_), _) | (_, Token::StringLiteral(_)) => false,
        (Token::Identifier(_), _) | (_, Token::Identifier(_)) => false,
        (Token::Operator(_), _) | (_, Token::Operator(_)) => false,
        (Token::Number(_), _) | (_, Token::Number(_)) => false,
        (Token::Float(_), _) | (_, Token::Float(_)) => false,
        _ => tag_of(a) == tag_of(b),
    }
}


/// A copy of a token.
pub fn clone_token(t: &Token) -> (r: Token)
    ensures
        r == *t,
{
    match t {
        Token::StringLiteral(s) => Token::StringLiteral(s.clone()),
        Token::Number(n) => Token::Number(*n),
        Token::Float(f) => Token::Float(*f),
        Token::Identifier(s) => Token::Identifier(s.clone()),
        Token::Operator(s) => Token::Operator(s.clone()),
        Token::Newline => Token::Newline,
        Token::Semicolon => Token::Semicolon,
        Token::Indent => Token::Indent,
        Token::Dedent => Token::Dedent,
        Token::Import => Token::Import,
        Token::Eof => Token::Eof,
        Token::True => Token::True,
        Token::False => Token::False,
        Token::Backtick => Token::Backtick,
        Token::InterpolationStart => Token::InterpolationStart,
        Token::InterpolationEnd => Token::InterpolationEnd,
        Token::This => Token::This,
        Token::Object => Token::Object,
        Token::Enum => Token::Enum,
        Token::Type => Token::Type,
        Token::Method => Token::Method,
        Token::End => Token::End,
        Token::ListStart => Token::ListStart,
        Token::ListEnd => Token::ListEnd,
        Token::ConstantDecl => Token::ConstantDecl,
        Token::MutableDecl => Token::MutableDecl,
        Token::Return => Token::Return,
        Token::Match => Token::Match,
        Token::Arrow => Token::Arrow,
        Token::Underscore => Token::Underscore,
        Token::FunctionDef => Token::FunctionDef,
        Token::Loop => Token::Loop,
        Token::In => Token::In,
        Token::Conditional => Token::Conditional,
        Token::ElseIf => Token::ElseIf,
        Token::Else => Token::Else,
        Token::Dot => Token::Dot,
        Token::Comma => Token::Comma,
        Token::Colon => Token::Colon,
        Token::LParen => Token::LParen,
        Token::RParen => Token::RParen,
        Token::LBrace => Token::LBrace,
        Token::RBrace => Token::RBrace,
        Token::Print => Token::Print,
        Token::Input => Token::Input,
        Token::Len => Token::Len,
        Token::NumberFn => Token::NumberFn,
        Token::Sum => Token::Sum,
        Token::RangeFn => Token::RangeFn,
        Token::LastWord => Token::LastWord,
        Token::Sqrt => Token::Sqrt,
        Token::Timer => Token::Timer,
        Token::Max => Token::Max,
        Token::Min => Token::Min,
        Token::Mod => Token::Mod,
        Token::Round => Token::Round,
        Token::Floor => Token::Floor,
        Token::Ceil => Token::Ceil,
        Token::Zig => Token::Zig,
        Token::StrUpper => Token::StrUpper,
        Token::StrLower => Token::StrLower,
        Token::StrReverse => Token::StrReverse,
        Token::Trim => Token::Trim,
        Token::ConvertString => Token::ConvertString,
        Token::Allocator => Token::Allocator,
        Token::IntegerType => Token::IntegerType,
        Token::BigIntegerType => Token::BigIntegerType,
        Token::LowIntegerType => Token::LowIntegerType,
        Token::BoolType => Token::BoolType,
        Token::NaturalType => Token::NaturalType,
        Token::StringType => Token::StringType,
        Token::CharType => Token::CharType,
        Token::FloatType => Token::FloatType,
        Token::Void => Token::Void,
        Token::ZigConstString => Token::ZigConstString,
        Token::ZigString => Token::ZigString,
        Token::ZigConstArray => Token::ZigConstArray,
        Token::ZigArray => Token::ZigArray,
        Token::ZigNatural => Token::ZigNatural,
        Token::ZigFloat => Token::ZigFloat,
        Token::ZigInteger => Token::ZigInteger,
        Token::Value => Token::Value,
        Token::Array => Token::Array,
    }
}

/// A copy of an optional token.
pub fn clone_opt_token(t: Option<&Token>) -> (r: Option<Token>)
    ensures
        r == match t { Some(x) => Some(*x), None => None },
{
    match t {
        Some(x) => Some(clone_token(x)),
        None => None,
    }
}

} // verus!
