//! The syntax tree of an `az` program.
use vstd::prelude::*;
use crate::lexer::FloatLit;
use crate::text::{str_eq, to_owned_string};

verus! {

/// The functions the language provides.
#[derive(Debug, Clone, Copy, PartialEq, Eq, Structural)]
pub enum BuiltInFunction {
    Print,
    Input,
    Len,
    Number,
    Sum,
    Range,
    Trim,
    LastWord,
    Sqrt,
    Timer,
    Max,
    Mod,
    Min,
    Round,
    Floor,
    Ceil,
    Zig,
    StrUpper,
    StrReverse,
    StrLower,
    Allocator,
    ConvertString,
}

/// How many arguments a call of `f` takes; `None` where any number is allowed.
pub open spec fn arg_count_spec(f: BuiltInFunction) -> Option<usize> {
    match f {
        BuiltInFunction::Print | BuiltInFunction::Len | BuiltInFunction::Sqrt
        | BuiltInFunction::Round | BuiltInFunction::Floor | BuiltInFunction::Ceil
        | BuiltInFunction::Mod | BuiltInFunction::Zig | BuiltInFunction::Number
        | BuiltInFunction::Allocator | BuiltInFunction::Trim | BuiltInFunction::LastWord
        | BuiltInFunction::StrUpper | BuiltInFunction::StrReverse | BuiltInFunction::StrLower
        | BuiltInFunction::ConvertString => Some(1),
        BuiltInFunction::Range => Some(2),
        BuiltInFunction::Timer => Some(0),
        BuiltInFunction::Sum | BuiltInFunction::Input | BuiltInFunction::Max
        | BuiltInFunction::Min => None,
    }
}

impl BuiltInFunction {
    /// The number of arguments the function takes, `None` for any number.
    pub fn expected_arg_count(&self) -> (r: Option<usize>)
        ensures
            r == arg_count_spec(*self),
    {
        match self {
            BuiltInFunction::Print
            | BuiltInFunction::Len
            | BuiltInFunction::Sqrt
            | BuiltInFunction::Round
            | BuiltInFunction::Floor
            | BuiltInFunction::Ceil
            | BuiltInFunction::Mod
            | BuiltInFunction::Zig
            | BuiltInFunction::Number
            | BuiltInFunction::Allocator
            | BuiltInFunction::Trim
            | BuiltInFunction::LastWord => Some(1),
            BuiltInFunction::Range => Some(2),
            BuiltInFunction::Timer => Some(0),
            BuiltInFunction::Sum => None,
            BuiltInFunction::Input => None,
            BuiltInFunction::StrUpper => Some(1),
            BuiltInFunction::StrReverse => Some(1),
            BuiltInFunction::StrLower => Some(1),
            BuiltInFunction::ConvertString => Some(1),
            BuiltInFunction::Max | BuiltInFunction::Min => None,
        }
    }
}


/// The name of a built-in function as its variant is written.
pub open spec fn builtin_name_spec(f: BuiltInFunction) -> Seq<char> {
    match f {
        BuiltInFunction::Print => "Print"@,
        BuiltInFunction::Input => "Input"@,
        BuiltInFunction::Len => "Len"@,
        BuiltInFunction::Number => "Number"@,
        BuiltInFunction::Sum => "Sum"@,
        BuiltInFunction::Range => "Range"@,
        BuiltInFunction::Trim => "Trim"@,
        BuiltInFunction::LastWord => "LastWord"@,
        BuiltInFunction::Sqrt => "Sqrt"@,
        BuiltInFunction::Timer => "Timer"@,
        BuiltInFunction::Max => "Max"@,
        BuiltInFunction::Mod => "Mod"@,
        BuiltInFunction::Min => "Min"@,
        BuiltInFunction::Round => "Round"@,
        BuiltInFunction::Floor => "Floor"@,
        BuiltInFunction::Ceil => "Ceil"@,
        BuiltInFunction::Zig => "Zig"@,
        BuiltInFunction::StrUpper => "StrUpper"@,
        BuiltInFunction::StrReverse => "StrReverse"@,
        BuiltInFunction::StrLower => "StrLower"@,
        BuiltInFunction::Allocator => "Allocator"@,
        BuiltInFunction::ConvertString => "ConvertString"@,
    }
}

/// The name of a built-in function as its variant is written.
pub fn builtin_name(f: BuiltInFunction) -> (r: String)
    ensures
        r@ == builtin_name_spec(f),
{
    match f {
        BuiltInFunction::Print => String::from_str("Print"),
        BuiltInFunction::Input => String::from_str("Input"),
        BuiltInFunction::Len => String::from_str("Len"),
        BuiltInFunction::Number => String::from_str("Number"),
        BuiltInFunction::Sum => String::from_str("Sum"),
        BuiltInFunction::Range => String::from_str("Range"),
        BuiltInFunction::Trim => String::from_str("Trim"),
        BuiltInFunction::LastWord => String::from_str("LastWord"),
        BuiltInFunction::Sqrt => String::from_str("Sqrt"),
        BuiltInFunction::Timer => String::from_str("Timer"),
        BuiltInFunction::Max => String::from_str("Max"),
        BuiltInFunction::Mod => String::from_str("Mod"),
        BuiltInFunction::Min => String::from_str("Min"),
        BuiltInFunction::Round => String::from_str("Round"),
        BuiltInFunction::Floor => String::from_str("Floor"),
        BuiltInFunction::Ceil => String::from_str("Ceil"),
        BuiltInFunction::Zig => String::from_str("Zig"),
        BuiltInFunction::StrUpper => String::from_str("StrUpper"),
        BuiltInFunction::StrReverse => String::from_str("StrReverse"),
        BuiltInFunction::StrLower => String::from_str("StrLower"),
        BuiltInFunction::Allocator => String::from_str("Allocator"),
        BuiltInFunction::ConvertString => String::from_str("ConvertString"),
    }
}

/// The types of the language.
#[derive(Debug)]
pub enum Type {
    String,
    LiteralString,
    LiteralConstString,
    ZigFloat,
    ZigArray,
    ZigConstArray,
    ZigNatural,
    ZigInteger,
    Array(Box<Type>),
    User(String, String),
    Integer,
    Natural,
    BigInteger,
    LowInteger,
    Bool,
    Char,
    Allocator,
    Void,
    Any,
    Float,
}

/// A type with its names taken as character sequences.
pub enum TypeV {
    String,
    LiteralString,
    LiteralConstString,
    ZigFloat,
    ZigArray,
    ZigConstArray,
    ZigNatural,
    ZigInteger,
    Array(Box<TypeV>),
    User(Seq<char>, Seq<char>),
    Integer,
    Natural,
    BigInteger,
    LowInteger,
    Bool,
    Char,
    Allocator,
    Void,
    Any,
    Float,
}

/// The view of a type.
pub open spec fn type_view(t: Type) -> TypeV
    decreases t,
{
    match t {
        Type::String => TypeV::String,
        Type::LiteralString => TypeV::LiteralString,
        Type::LiteralConstString => TypeV::LiteralConstString,
        Type::ZigFloat => TypeV::ZigFloat,
        Type::ZigArray => TypeV::ZigArray,
        Type::ZigConstArray => TypeV::ZigConstArray,
        Type::ZigNatural => TypeV::ZigNatural,
        Type::ZigInteger => TypeV::ZigInteger,
        Type::Array(inner) => TypeV::Array(Box::new(type_view(*inner))),
        Type::User(a, b) => TypeV::User(a@, b@),
        Type::Integer => TypeV::Integer,
        Type::Natural => TypeV::Natural,
        Type::BigInteger => TypeV::BigInteger,
        Type::LowInteger => TypeV::LowInteger,
        Type::Bool => TypeV::Bool,
        Type::Char => TypeV::Char,
        Type::Allocator => TypeV::Allocator,
        Type::Void => TypeV::Void,
        Type::Any => TypeV::Any,
        Type::Float => TypeV::Float,
    }
}

impl View for Type {
    type V = TypeV;

    open spec fn view(&self) -> TypeV {
        type_view(*self)
    }
}

/// A copy of a type.
pub fn clone_type(t: &Type) -> (r: Type)
    ensures
        r == *t,
    decreases t,
{
    match t {
        Type::String => Type::String,
        Type::LiteralString => Type::LiteralString,
        Type::LiteralConstString => Type::LiteralConstString,
        Type::ZigFloat => Type::ZigFloat,
        Type::ZigArray => Type::ZigArray,
        Type::ZigConstArray => Type::ZigConstArray,
        Type::ZigNatural => Type::ZigNatural,
        Type::ZigInteger => Type::ZigInteger,
        Type::Array(inner) => Type::Array(Box::new(clone_type(inner))),
        Type::User(a, b) => Type::User(a.clone(), b.clone()),
        Type::Integer => Type::Integer,
        Type::Natural => Type::Natural,
        Type::BigInteger => Type::BigInteger,
        Type::LowInteger => Type::LowInteger,
        Type::Bool => Type::Bool,
        Type::Char => Type::Char,
        Type::Allocator => Type::Allocator,
        Type::Void => Type::Void,
        Type::Any => Type::Any,
        Type::Float => Type::Float,
    }
}

/// Whether two types are the same type (the type comparison `==`).
pub fn type_eq(a: &Type, b: &Type) -> (r: bool)
    ensures
        r == (a@ == b@),
    decreases a,
{
    match (a, b) {
        (Type::Array(x), Type::Array(y)) => type_eq(x, y),
        (Type::User(a1, a2), Type::User(b1, b2)) =>
            str_eq(a1.as_str(), b1.as_str()) && str_eq(a2.as_str(), b2.as_str()),
        (Type::String, Type::String) => true,
        (Type::LiteralString, Type::LiteralString) => true,
        (Type::LiteralConstString, Type::LiteralConstString) => true,
        (Type::ZigFloat, Type::ZigFloat) => true,
        (Type::ZigArray, Type::ZigArray) => true,
        (Type::ZigConstArray, Type::ZigConstArray) => true,
        (Type::ZigNatural, Type::ZigNatural) => true,
        (Type::ZigInteger, Type::ZigInteger) => true,
        (Type::Integer, Type::Integer) => true,
        (Type::Natural, Type::Natural) => true,
        (Type::BigInteger, Type::BigInteger) => true,
        (Type::LowInteger, Type::LowInteger) => true,
        (Type::Bool, Type::Bool) => true,
        (Type::Char, Type::Char) => true,
        (Type::Allocator, Type::Allocator) => true,
        (Type::Void, Type::Void) => true,
        (Type::Any, Type::Any) => true,
        (Type::Float, Type::Float) => true,
        _ => false,
    }
}

/// The declaration of an enum: its name and variants.
#[derive(Debug)]
pub struct EnumDecl {
    pub name: String,
    pub variants: Vec<String>,
}

/// What the validator knows of a name.
#[derive(Debug)]
pub struct Symbol {
    pub typ: Type,
    pub is_mutable: bool,
    pub is_pointer: bool,
    pub is_used: bool,
    pub transpiled_name: Option<String>,
}

/// A copy of a symbol.
pub fn clone_symbol(s: &Symbol) -> (r: Symbol)
    ensures
        r == *s,
{
    Symbol {
        typ: clone_type(&s.typ),
        is_mutable: s.is_mutable,
        is_pointer: s.is_pointer,
        is_used: s.is_used,
        transpiled_name: match &s.transpiled_name {
            Some(n) => Some(n.clone()),
            None => None,
        },
    }
}

/// A parameter of a function or method.
#[derive(Debug)]
pub struct Parameter {
    pub name: String,
    pub typ: Type,
    pub is_mutable: bool,
    pub is_pointer: bool,
}

/// A copy of a parameter.
pub fn clone_parameter(p: &Parameter) -> (r: Parameter)
    ensures
        r == *p,
{
    Parameter { name: p.name.clone(), typ: clone_type(&p.typ), is_mutable: p.is_mutable, is_pointer: p.is_pointer }
}

/// A copy of a list of parameters.
pub fn clone_parameters(ps: &Vec<Parameter>) -> (r: Vec<Parameter>)
    ensures
        r@ == ps@,
{
    let mut r: Vec<Parameter> = Vec::new();
    let mut i: usize = 0;
    while i < ps.len()
        invariant
            i <= ps@.len(),
            r@ == ps@.subrange(0, i as int),
        decreases ps@.len() - i,
    {
        r.push(clone_parameter(&ps[i]));
        i = i + 1;
        assert(r@ =~= ps@.subrange(0, i as int));
    }
    assert(ps@.subrange(0, ps@.len() as int) =~= ps@);
    r
}

/// A method of a struct or union type.
#[derive(Debug)]
pub struct MethodType {
    pub name: String,
    pub transpiled_name: Option<String>,
    pub params: Vec<Parameter>,
    pub body: Vec<Expr>,
    pub return_type: Option<Type>,
    pub is_allocator: bool,
}

/// A piece of a template string.
#[derive(Debug)]
pub enum TemplateChunk {
    Literal(String),
    Expr(Box<Expr>),
}

/// An expression or statement.
#[derive(Debug)]
pub enum Expr {
    DynamicString(String),
    String(String, bool),
    Bool(bool),
    Number(i64),
    Char(char),
    EnumDecl(EnumDecl),
    Return(Box<Expr>),
    List(Vec<Expr>),
    UnaryOp { op: String, expr: Box<Expr> },
    Index { target: Box<Expr>, index: Box<Expr>, target_type: Type },
    Loop { var_name: String, iterable: Box<Expr>, body: Vec<Expr> },
    Assingment { name: String, transpiled_name: String, value: Box<Expr>, is_pointer: bool },
    Float(FloatLit),
    Decl {
        name: String,
        transpiled_name: Option<String>,
        typ: Option<Type>,
        is_mutable: bool,
        is_primitive: bool,
        value: Box<Expr>,
    },
    VariableRef { name: String, transpiled_name: Option<String>, symbol: Option<Symbol> },
    TemplateString(Vec<TemplateChunk>),
    If { condition: Box<Expr>, then_branch: Vec<Expr>, else_branch: Vec<Expr> },
    ElseIf { condition: Box<Expr>, then_branch: Vec<Expr> },
    Else { then_branch: Vec<Expr> },
    BuiltInCall { function: BuiltInFunction, args: Vec<Expr>, return_type: Type },
    Call {
        target: Option<Box<Expr>>,
        name: String,
        transpiled_name: Option<String>,
        args: Vec<Expr>,
        returned_type: Option<Type>,
        is_allocator: bool,
    },
    StructDef {
        name: String,
        transpiled_name: Option<String>,
        fields: Vec<(String, Type, Option<Expr>)>,
        methods: Vec<MethodType>,
    },
    FunctionDef {
        name: String,
        transpiled_name: Option<String>,
        params: Vec<Parameter>,
        body: Vec<Expr>,
        return_type: Option<Type>,
        is_allocator: bool,
    },
    UnionType {
        name: String,
        transpiled_name: Option<String>,
        fields: Vec<(String, Type)>,
        methods: Vec<MethodType>,
    },
    StructInit { name: String, transpiled_name: Option<String>, args: Vec<(String, Expr)> },
    Assignment { name: String, value: Box<Expr>, symbol: Option<Symbol> },
    BinaryOp { left: Box<Expr>, op: String, right: Box<Expr> },
    Break,
    Continue,
    Match { target: Box<Expr>, arms: Vec<(Expr, Vec<Expr>)> },
    /// A point in time, in milliseconds, as the timer built-in gives it.
    Time(u64),
}

/// A copy of an optional string.
pub fn clone_opt_string(s: &Option<String>) -> (r: Option<String>)
    ensures
        r == *s,
{
    match s {
        Some(x) => Some(x.clone()),
        None => None,
    }
}

/// A copy of an optional type.
pub fn clone_opt_type(t: &Option<Type>) -> (r: Option<Type>)
    ensures
        r == *t,
{
    match t {
        Some(x) => Some(clone_type(x)),
        None => None,
    }
}

/// A copy of an optional symbol.
pub fn clone_opt_symbol(s: &Option<Symbol>) -> (r: Option<Symbol>)
    ensures
        r == *s,
{
    match s {
        Some(x) => Some(clone_symbol(x)),
        None => None,
    }
}

/// A copy of a list of expressions.
pub fn clone_exprs(v: &Vec<Expr>) -> (r: Vec<Expr>)
    ensures
        r@.len() == v@.len(),
        forall|i: int| 0 <= i < v@.len() && is_leaf(#[trigger] v@[i]) ==> r@[i] == v@[i],
        copies_of(r@, v@),
    decreases v, 0int,
{
    let mut out: Vec<Expr> = Vec::new();
    let mut i: usize = 0;
    while i < v.len()
        invariant
            i <= v@.len(),
            out@.len() == i,
            forall|k: int| 0 <= k < i && is_leaf(#[trigger] v@[k]) ==> out@[k] == v@[k],
            forall|k: int| 0 <= k < i ==> (without_lists(#[trigger] v@[k]) ==> out@[k] == v@[k])
                && struct_copy(out@[k], v@[k]),
        decreases v@.len() - i,
    {
        proof {
            assert(decreases_to!(v => v@));
            assert(decreases_to!(v@ => v@[i as int]));
        }
        out.push(clone_expr(&v[i]));
        i = i + 1;
    }
    out
}

/// A copy of the methods of a type.
fn clone_methods(v: &Vec<MethodType>) -> (r: Vec<MethodType>)
    ensures
        r@.len() == v@.len(),
    decreases v, 0int,
{
    let mut out: Vec<MethodType> = Vec::new();
    let mut i: usize = 0;
    while i < v.len()
        invariant
            i <= v@.len(),
            out@.len() == i,
        decreases v@.len() - i,
    {
        proof {
            assert(decreases_to!(v => v@));
            assert(decreases_to!(v@ => v@[i as int]));
            assert(decreases_to!(v@[i as int] => v@[i as int].body));
        }
        let m = &v[i];
        out.push(MethodType {
            name: m.name.clone(),
            transpiled_name: clone_opt_string(&m.transpiled_name),
            params: clone_parameters(&m.params),
            body: clone_exprs(&m.body),
            return_type: clone_opt_type(&m.return_type),
            is_allocator: m.is_allocator,
        });
        i = i + 1;
    }
    out
}

/// Whether an expression is a literal or a jump, with no expressions inside.
pub open spec fn is_leaf(e: Expr) -> bool {
    ||| e is DynamicString
    ||| e is String
    ||| e is Bool
    ||| e is Number
    ||| e is Char
    ||| e is Float
    ||| e is Time
    ||| e is Break
    ||| e is Continue
}

/// Whether an expression holds no list of sub-expressions, so that a copy
/// of it is equal to it (lists are compared element by element only).
pub open spec fn without_lists(e: Expr) -> bool
    decreases e,
{
    match e {
        Expr::Return(x) => without_lists(*x),
        Expr::UnaryOp { expr, .. } => without_lists(*expr),
        Expr::Index { target, index, .. } => without_lists(*target) && without_lists(*index),
        Expr::Assingment { value, .. } => without_lists(*value),
        Expr::Decl { value, .. } => without_lists(*value),
        Expr::Assignment { value, .. } => without_lists(*value),
        Expr::BinaryOp { left, right, .. } => without_lists(*left) && without_lists(*right),
        Expr::VariableRef { .. } => true,
        _ => is_leaf(e),
    }
}

/// Whether `c` is a copy of the statements `e`, one for one: each equal
/// where it holds no list, a struct value copied as `struct_copy` says.
pub open spec fn copies_of(c: Seq<Expr>, e: Seq<Expr>) -> bool {
    &&& c.len() == e.len()
    &&& forall|i: int| 0 <= i < e.len() ==> (without_lists(#[trigger] e[i]) ==> c[i] == e[i])
        && struct_copy(c[i], e[i])
}

/// Whether `c` is a copy of the struct value `e`: the same name and
/// generated name, and the same fields in the same order, each value equal
/// where it holds no list.
pub open spec fn struct_copy(c: Expr, e: Expr) -> bool {
    e matches Expr::StructInit { name, transpiled_name, args } ==> (c matches Expr::StructInit {
        name: n2, transpiled_name: t2, args: a2 } && n2 == name && t2 == transpiled_name
        && a2@.len() == args@.len()
        && forall|i: int| 0 <= i < args@.len() ==> (#[trigger] a2@[i]).0 == args@[i].0
            && (without_lists(args@[i].1) ==> a2@[i].1 == args@[i].1))
}

/// A copy of an expression (`clone`).
#[verifier::loop_isolation(false)]
pub fn clone_expr(e: &Expr) -> (r: Expr)
    ensures
        is_leaf(*e) ==> r == *e,
        without_lists(*e) ==> r == *e,
        struct_copy(r, *e),
    decreases e, 1int,
{
    match e {
        Expr::DynamicString(s) => Expr::DynamicString(s.clone()),
        Expr::String(s, b) => Expr::String(s.clone(), *b),
        Expr::Bool(b) => Expr::Bool(*b),
        Expr::Number(n) => Expr::Number(*n),
        Expr::Char(c) => Expr::Char(*c),
        Expr::EnumDecl(d) => {
            let mut vs: Vec<String> = Vec::new();
            let mut i: usize = 0;
            while i < d.variants.len()
                invariant
                    i <= d.variants@.len(),
                    vs@.len() == i,
                decreases d.variants@.len() - i,
            {
                vs.push(d.variants[i].clone());
                i = i + 1;
            }
            Expr::EnumDecl(EnumDecl { name: d.name.clone(), variants: vs })
        },
        Expr::Return(x) => Expr::Return(Box::new(clone_expr(x))),
        Expr::List(items) => Expr::List(clone_exprs(items)),
        Expr::UnaryOp { op, expr } => Expr::UnaryOp { op: op.clone(), expr: Box::new(clone_expr(expr)) },
        Expr::Index { target, index, target_type } => Expr::Index {
            target: Box::new(clone_expr(target)),
            index: Box::new(clone_expr(index)),
            target_type: clone_type(target_type),
        },
        Expr::Loop { var_name, iterable, body } => Expr::Loop {
            var_name: var_name.clone(),
            iterable: Box::new(clone_expr(iterable)),
            body: clone_exprs(body),
        },
        Expr::Assingment { name, transpiled_name, value, is_pointer } => Expr::Assingment {
            name: name.clone(),
            transpiled_name: transpiled_name.clone(),
            value: Box::new(clone_expr(value)),
            is_pointer: *is_pointer,
        },
        Expr::Float(f) => Expr::Float(*f),
        Expr::Decl { name, transpiled_name, typ, is_mutable, is_primitive, value } => Expr::Decl {
            name: name.clone(),
            transpiled_name: clone_opt_string(transpiled_name),
            typ: clone_opt_type(typ),
            is_mutable: *is_mutable,
            is_primitive: *is_primitive,
            value: Box::new(clone_expr(value)),
        },
        Expr::VariableRef { name, transpiled_name, symbol } => Expr::VariableRef {
            name: name.clone(),
            transpiled_name: clone_opt_string(transpiled_name),
            symbol: clone_opt_symbol(symbol),
        },
        Expr::TemplateString(chunks) => {
            let mut out: Vec<TemplateChunk> = Vec::new();
            let mut i: usize = 0;
            while i < chunks.len()
                invariant
                    i <= chunks@.len(),
                    out@.len() == i,
                decreases chunks@.len() - i,
            {
                let c = match &chunks[i] {
                    TemplateChunk::Literal(s) => TemplateChunk::Literal(s.clone()),
                    TemplateChunk::Expr(x) => {
                        proof {
                            assert(decreases_to!(*e => e->TemplateString_0));
                            assert(decreases_to!(e->TemplateString_0 => e->TemplateString_0@));
                            assert(decreases_to!(e->TemplateString_0@ => e->TemplateString_0@[i as int]));
                        }
                        TemplateChunk::Expr(Box::new(clone_expr(x)))
                    },
                };
                out.push(c);
                i = i + 1;
            }
            Expr::TemplateString(out)
        },
        Expr::If { condition, then_branch, else_branch } => Expr::If {
            condition: Box::new(clone_expr(condition)),
            then_branch: clone_exprs(then_branch),
            else_branch: clone_exprs(else_branch),
        },
        Expr::ElseIf { condition, then_branch } => Expr::ElseIf {
            condition: Box::new(clone_expr(condition)),
            then_branch: clone_exprs(then_branch),
        },
        Expr::Else { then_branch } => Expr::Else { then_branch: clone_exprs(then_branch) },
        Expr::BuiltInCall { function, args, return_type } => Expr::BuiltInCall {
            function: *function,
            args: clone_exprs(args),
            return_type: clone_type(return_type),
        },
        Expr::Call { target, name, transpiled_name, args, returned_type, is_allocator } => Expr::Call {
            target: match target {
                Some(t) => Some(Box::new(clone_expr(t))),
                None => None,
            },
            name: name.clone(),
            transpiled_name: clone_opt_string(transpiled_name),
            args: clone_exprs(args),
            returned_type: clone_opt_type(returned_type),
            is_allocator: *is_allocator,
        },
        Expr::StructDef { name, transpiled_name, fields, methods } => {
            let mut fs: Vec<(String, Type, Option<Expr>)> = Vec::new();
            let mut i: usize = 0;
            while i < fields.len()
                invariant
                    i <= fields@.len(),
                    fs@.len() == i,
                decreases fields@.len() - i,
            {
                let d = match &fields[i].2 {
                    Some(x) => {
                        proof {
                            assert(decreases_to!(*e => e->StructDef_fields));
                            assert(decreases_to!(e->StructDef_fields => e->StructDef_fields@));
                            assert(decreases_to!(e->StructDef_fields@ => e->StructDef_fields@[i as int]));
                            assert(decreases_to!(e->StructDef_fields@[i as int] => e->StructDef_fields@[i as int].2));
                        }
                        Some(clone_expr(x))
                    },
                    None => None,
                };
                fs.push((fields[i].0.clone(), clone_type(&fields[i].1), d));
                i = i + 1;
            }
            Expr::StructDef {
                name: name.clone(),
                transpiled_name: clone_opt_string(transpiled_name),
                fields: fs,
                methods: clone_methods(methods),
            }
        },
        Expr::FunctionDef { name, transpiled_name, params, body, return_type, is_allocator } => Expr::FunctionDef {
            name: name.clone(),
            transpiled_name: clone_opt_string(transpiled_name),
            params: clone_parameters(params),
            body: clone_exprs(body),
            return_type: clone_opt_type(return_type),
            is_allocator: *is_allocator,
        },
        Expr::UnionType { name, transpiled_name, fields, methods } => {
            let mut fs: Vec<(String, Type)> = Vec::new();
            let mut i: usize = 0;
            while i < fields.len()
                invariant
                    i <= fields@.len(),
                    fs@.len() == i,
                decreases fields@.len() - i,
            {
                fs.push((fields[i].0.clone(), clone_type(&fields[i].1)));
                i = i + 1;
            }
            Expr::UnionType {
                name: name.clone(),
                transpiled_name: clone_opt_string(transpiled_name),
                fields: fs,
                methods: clone_methods(methods),
            }
        },
        Expr::StructInit { name, transpiled_name, args } => {
            let mut xs: Vec<(String, Expr)> = Vec::new();
            let mut i: usize = 0;
            while i < args.len()
                invariant
                    i <= args@.len(),
                    xs@.len() == i,
                    forall|j: int| 0 <= j < i ==> (#[trigger] xs@[j]).0 == args@[j].0
                        && (without_lists(args@[j].1) ==> xs@[j].1 == args@[j].1),
                decreases args@.len() - i,
            {
                proof {
                    assert(decreases_to!(*e => e->StructInit_args));
                    assert(decreases_to!(e->StructInit_args => e->StructInit_args@));
                    assert(decreases_to!(e->StructInit_args@ => e->StructInit_args@[i as int]));
                    assert(decreases_to!(e->StructInit_args@[i as int] => e->StructInit_args@[i as int].1));
                }
                xs.push((args[i].0.clone(), clone_expr(&args[i].1)));
                i = i + 1;
            }
            Expr::StructInit { name: name.clone(), transpiled_name: clone_opt_string(transpiled_name), args: xs }
        },
        Expr::Assignment { name, value, symbol } => Expr::Assignment {
            name: name.clone(),
            value: Box::new(clone_expr(value)),
            symbol: clone_opt_symbol(symbol),
        },
        Expr::BinaryOp { left, op, right } => Expr::BinaryOp {
            left: Box::new(clone_expr(left)),
            op: op.clone(),
            right: Box::new(clone_expr(right)),
        },
        Expr::Break => Expr::Break,
        Expr::Continue => Expr::Continue,
        Expr::Match { target, arms } => {
            let mut xs: Vec<(Expr, Vec<Expr>)> = Vec::new();
            let mut i: usize = 0;
            while i < arms.len()
                invariant
                    i <= arms@.len(),
                    xs@.len() == i,
                decreases arms@.len() - i,
            {
                proof {
                    assert(decreases_to!(*e => e->Match_arms));
                    assert(decreases_to!(e->Match_arms => e->Match_arms@));
                    assert(decreases_to!(e->Match_arms@ => e->Match_arms@[i as int]));
                    assert(decreases_to!(e->Match_arms@[i as int] => e->Match_arms@[i as int].0));
                    assert(decreases_to!(e->Match_arms@[i as int] => e->Match_arms@[i as int].1));
                }
                xs.push((clone_expr(&arms[i].0), clone_exprs(&arms[i].1)));
                i = i + 1;
            }
            Expr::Match { target: Box::new(clone_expr(target)), arms: xs }
        },
        Expr::Time(t) => Expr::Time(*t),
    }
}

/// A whole program: its top-level expressions in order.
#[derive(Debug)]
pub struct Program {
    pub expressions: Vec<Expr>,
}

} // verus!
