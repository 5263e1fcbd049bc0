pub mod builtin;
pub mod eval;
pub mod helpers;
pub mod runner_interpretator;
pub mod values;

use vstd::prelude::*;
use bumpalo::Bump;
use crate::dict::Dict;
use crate::parser::ast::{Expr, Program, Type};
use crate::runner::runner_interpretator::{ends_with_exit, exits_only_at_end};

verus! {

/// The arena the interpreter allocates expressions and types in.
#[verifier::external_type_specification]
#[verifier::external_body]
pub struct ExBump<const MIN_ALIGN: usize>(bumpalo::Bump<MIN_ALIGN>);

/// Moves a value into the arena (`Bump::alloc`). Trusted: the reference
/// given back reads the value that was moved in.
#[verifier::external_body]
fn arena_alloc<'a, T>(arena: &'a Bump, val: T) -> (r: &'a T)
    ensures
        *r == val,
{
    arena.alloc(val)
}

/// Moves the elements of a list into the arena (`Bump::alloc_slice_fill_iter`).
/// Trusted: the slice given back holds the elements in their order.
#[verifier::external_body]
fn arena_alloc_slice<'a, T>(arena: &'a Bump, items: Vec<T>) -> (r: &'a [T])
    ensures
        r@ == items@,
{
    arena.alloc_slice_fill_iter(items.into_iter())
}

/// The Zig compiler the generated program is run and built with.
pub fn get_zig_path() -> (r: &'static str)
    ensures
        r@ == "zig"@,
{
    "zig"
}

/// A variable of the running program: its value, type and mutability.
#[derive(Debug)]
pub struct Variable {
    pub value: Expr,
    pub typ: Type,
    pub is_mutable: bool,
}

/// A method of a struct or union type of the running program.
#[derive(Debug)]
pub struct Method {
    pub name: String,
    pub params: Vec<(String, Type)>,
    pub body: Vec<Expr>,
    pub return_type: Option<Type>,
}

/// A struct type of the running program.
#[derive(Debug)]
pub struct StructDef {
    pub name: String,
    pub fields: Vec<(String, Type, Option<Expr>)>,
    pub methods: Vec<Method>,
}

/// A function of the running program.
#[derive(Debug)]
pub struct FunctionDef {
    pub params: Vec<(String, Type)>,
    pub body: Vec<Expr>,
    pub return_type: Type,
}

/// A union type of the running program.
#[derive(Debug)]
pub struct UnionType {
    pub name: String,
    pub fields: Vec<(String, Type)>,
    pub methods: Vec<Method>,
}

/// Why running a program failed: an arithmetic error, a missing argument
/// or definition, or calls nested too deeply.
#[derive(Debug)]
pub enum RunError {
    /// A number was divided by zero.
    DivisionByZero,
    /// An arithmetic result does not fit in a 64-bit integer.
    Overflow,
    /// The integer square root of a negative number was asked for.
    NegativeSqrt,
    /// A built-in function was called without an argument it reads.
    MissingArgument,
    /// A function of this name was called but never defined.
    UnknownFunction(String),
    /// A method was called on a value of a struct that was never defined.
    UnknownStruct(String),
    /// Calls or evaluations nested deeper than the interpreter allows.
    TooDeep,
}

/// What the running program asks its surroundings to do.
#[derive(Debug)]
pub enum RunAction {
    /// Print a line.
    Print(String),
    /// Stop the program.
    Exit,
}

/// The interpreter's state: the variables, types and functions the program
/// has defined so far, and the arena it allocates in.
#[derive(Debug)]
pub struct Runner<'a> {
    pub variables: Dict<Variable>,
    pub structdefs: Dict<StructDef>,
    pub functions: Dict<FunctionDef>,
    pub uniontypes: Dict<UnionType>,
    pub arena: &'a Bump,
}

impl<'a> Runner<'a> {
    /// Every table keeps each name once.
    pub open spec fn wf(&self) -> bool {
        &&& self.variables.wf()
        &&& self.structdefs.wf()
        &&& self.functions.wf()
        &&& self.uniontypes.wf()
    }

    /// An interpreter that has run nothing yet (`new`).
    pub fn new(arena: &'a Bump) -> (r: Self)
        ensures
            r.wf(),
            r.variables.as_map() =~= Map::empty(),
            r.structdefs.as_map() =~= Map::empty(),
            r.functions.as_map() =~= Map::empty(),
            r.uniontypes.as_map() =~= Map::empty(),
            r.arena == arena,
    {
        Runner {
            variables: Dict::new(),
            structdefs: Dict::new(),
            functions: Dict::new(),
            uniontypes: Dict::new(),
            arena,
        }
    }

    /// Puts an expression in the arena (`alloc_expr`).
    pub fn alloc_expr(&self, expr: Expr) -> (r: &'a Expr)
        ensures
            *r == expr,
    {
        arena_alloc(self.arena, expr)
    }

    /// Puts a type in the arena (`alloc_type`).
    pub fn alloc_type(&self, typ: Type) -> (r: &'a Type)
        ensures
            *r == typ,
    {
        arena_alloc(self.arena, typ)
    }

    /// Puts a list of expressions in the arena (`alloc_expr_vec`).
    pub fn alloc_expr_vec(&self, body: Vec<Expr>) -> (r: &'a [Expr])
        ensures
            r@ == body@,
    {
        arena_alloc_slice(self.arena, body)
    }

    /// Runs a program's statements in order (`run`) and gives back what they
    /// asked to print, up to the first error or the request to stop.
    pub fn run(&mut self, program: Program) -> (r: (Vec<RunAction>, Result<(), RunError>))
        requires
            old(self).wf(),
        ensures
            final(self).wf(),
            program.expressions@.len() == 0 ==> r.0@.len() == 0 && r.1 is Ok,
            exits_only_at_end(r.0@),
            ends_with_exit(r.0@) ==> r.1 is Ok,
    {
        let mut actions: Vec<RunAction> = Vec::new();
        let mut i: usize = 0;
        while i < program.expressions.len()
            invariant
                self.wf(),
                i <= program.expressions@.len(),
                i == 0 ==> actions@.len() == 0,
                exits_only_at_end(actions@),
                !ends_with_exit(actions@),
            decreases program.expressions@.len() - i,
        {
            let (mut step, res) = runner_interpretator::run_statement(self, &program.expressions[i]);
            let stopped = step.len() > 0 && matches!(step[step.len() - 1], RunAction::Exit);
            let ghost before = actions@;
            let ghost st = step@;
            actions.append(&mut step);
            proof {
                assert(actions@ =~= before + st);
                assert(stopped == ends_with_exit(st));
                assert forall|k: int| 0 <= k < actions@.len() - 1 implies !(#[trigger] actions@[k] is Exit) by {
                    if k < before.len() {
                        assert(actions@[k] == before[k]);
                        if k == before.len() - 1 {
                            assert(!ends_with_exit(before));
                        }
                    } else {
                        assert(actions@[k] == st[k - before.len()]);
                    }
                }
                if st.len() == 0 {
                    assert(actions@ =~= before);
                }
            }
            match res {
                Err(e) => return (actions, Err(e)),
                Ok(()) => {},
            }
            if stopped {
                return (actions, Ok(()));
            }
            i = i + 1;
        }
        (actions, Ok(()))
    }
}

} // verus!
