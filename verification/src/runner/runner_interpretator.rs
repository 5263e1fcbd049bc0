//! Running one statement of a program.
use vstd::prelude::*;
use crate::parser::ast::{BuiltInFunction, Expr, MethodType, Type, clone_exprs, clone_opt_type, clone_type, copies_of, is_leaf};
use crate::runner::{FunctionDef, Method, RunAction, RunError, Runner, StructDef, UnionType, Variable};
use crate::runner::builtin::print::{known_text, print_interpreter, value_text};
use crate::runner::eval::{Known, MAX_DEPTH, described, eval, evaluates, kind_of, value_of};
use crate::runner::helpers::{get_run_type, run_type};

verus! {

/// The forms the interpreter does nothing for.
pub open spec fn inert(e: Expr) -> bool {
    !(e is Decl || e is UnionType || e is BuiltInCall || e is Loop || e is Assignment || e is FunctionDef
        || e is Call || e is StructDef || e is If)
}

/// The parameters of a function or method as name and type.
fn param_pairs(params: &Vec<crate::parser::ast::Parameter>) -> (r: Vec<(String, Type)>)
    ensures
        r@.len() == params@.len(),
{
    let mut out: Vec<(String, Type)> = Vec::new();
    let mut i: usize = 0;
    while i < params.len()
        invariant
            i <= params@.len(),
            out@.len() == i,
        decreases params@.len() - i,
    {
        out.push((params[i].name.clone(), clone_type(&params[i].typ)));
        i = i + 1;
    }
    out
}

/// The methods of a type as the interpreter keeps them.
fn method_list(methods: &Vec<MethodType>) -> (r: Vec<Method>)
    ensures
        r@.len() == methods@.len(),
{
    let mut out: Vec<Method> = Vec::new();
    let mut i: usize = 0;
    while i < methods.len()
        invariant
            i <= methods@.len(),
            out@.len() == i,
        decreases methods@.len() - i,
    {
        let m = &methods[i];
        out.push(Method {
            name: m.name.clone(),
            params: param_pairs(&m.params),
            body: clone_exprs(&m.body),
            return_type: clone_opt_type(&m.return_type),
        });
        i = i + 1;
    }
    out
}

/// Runs one statement (`runner_interpretator`) and gives back what it
/// asked to print, and whether it failed.
pub fn runner_interpretator(ctx: &mut Runner, expr: Expr) -> (r: (Vec<RunAction>, Result<(), RunError>))
    requires
        old(ctx).wf(),
    ensures
        final(ctx).wf(),
        statement_outcome(*old(ctx), *final(ctx), expr, r.0@, r.1),
        control_outcome(*old(ctx), *final(ctx), expr, r.0@, r.1),
        call_ran(expr, *old(ctx), *final(ctx), r.0@, r.1),
{
    run_statement(ctx, &expr)
}

/// `after` differs from `before` only in the variable `name`, which holds a
/// value known as `k`, of type `typ` and mutability `is_mutable`.
pub open spec fn stores(before: Runner, after: Runner, name: Seq<char>, k: Known, typ: Type, is_mutable: bool) -> bool {
    &&& after.variables.has(name)
    &&& described(after.variables.as_map()[name].value, k)
    &&& after.variables.as_map()[name].typ == typ
    &&& after.variables.as_map()[name].is_mutable == is_mutable
    &&& after.variables.as_map() == before.variables.as_map().insert(name, after.variables.as_map()[name])
    &&& after.functions == before.functions
    &&& after.structdefs == before.structdefs
    &&& after.uniontypes == before.uniontypes
}

/// What running a statement that evaluates `value` first does: an error
/// in the evaluation is the result and changes nothing; otherwise `then`.
pub open spec fn after_value(before: Runner, after: Runner, value: Expr, actions: Seq<RunAction>,
    res: Result<(), RunError>, then: spec_fn(Known) -> bool) -> bool {
    match value_of(value, before.variables.as_map(), MAX_DEPTH as nat) {
        Some(Err(x)) => res == Err::<(), RunError>(x) && actions.len() == 0 && after == before,
        Some(Ok(k)) => then(k),
        None => true,
    }
}

/// What printing a value known as `k` does: it prints one line, with the
/// value's text where that follows from `k`, and changes nothing.
pub open spec fn prints(before: Runner, after: Runner, k: Known, actions: Seq<RunAction>,
    res: Result<(), RunError>) -> bool {
    &&& res is Ok
    &&& after == before
    &&& actions.len() >= 1
    &&& actions[0] is Print
    &&& known_text(k) matches Some(t) ==> actions[0]->Print_0@ == t
}

/// What running a statement does, where it follows from the statement and
/// the state alone: a declaration or assignment stores the value of its
/// expression, printing prints the text of the value, the last word also
/// stops the program, a condition or loop over a value of the wrong kind
/// does nothing, calling an unknown function fails, an error in evaluating
/// an expression is the result, definitions are recorded, and other forms
/// do nothing.
pub open spec fn statement_outcome(before: Runner, after: Runner, e: Expr, actions: Seq<RunAction>,
    res: Result<(), RunError>) -> bool {
    &&& (e matches Expr::Decl { name, typ, is_mutable, value, .. } ==> after_value(before, after, *value, actions, res,
        |k: Known| res is Ok && actions.len() == 0
            && stores(before, after, name@, k, match typ { Some(t) => t, None => Type::Any }, is_mutable)))
    &&& (e matches Expr::Assignment { name, value, symbol } ==> after_value(before, after, *value, actions, res,
        |k: Known| res is Ok && actions.len() == 0
            && stores(before, after, name@, k, match symbol { Some(s) => s.typ, None => run_type(*value) }, true)))
    &&& (e matches Expr::BuiltInCall { function: BuiltInFunction::Print, args, .. } ==> if args@.len() == 0 {
        res == Err::<(), RunError>(RunError::MissingArgument) && actions.len() == 0
    } else {
        after_value(before, after, args@[0], actions, res,
            |k: Known| prints(before, after, k, actions, res) && actions.len() == 1)
    })
    &&& (e matches Expr::BuiltInCall { function: BuiltInFunction::LastWord, args, .. } ==> if args@.len() == 0 {
        res == Err::<(), RunError>(RunError::MissingArgument) && actions.len() == 0
    } else {
        after_value(before, after, args@[0], actions, res,
            |k: Known| prints(before, after, k, actions, res) && actions.len() == 2 && actions[1] is Exit)
    })
    &&& (e matches Expr::If { condition, .. } ==> after_value(before, after, *condition, actions, res,
        |k: Known| (kind_of(k) matches Some(c) && c != 3) ==> res is Ok && actions.len() == 0 && after == before))
    &&& (e matches Expr::Loop { var_name, iterable, .. } ==> after_value(before, after, *iterable, actions, res,
        |k: Known| (kind_of(k) is Some && !(k is ListOf) && !(k matches Known::Exact(Expr::List(_))))
            ==> res is Ok && actions.len() == 0
            && after.variables.as_map() == before.variables.as_map().remove(var_name@)
            && after.functions == before.functions && after.structdefs == before.structdefs
            && after.uniontypes == before.uniontypes))
    &&& (e matches Expr::Decl { name, .. } ==> (res is Ok ==> after.variables.has(name@)))
    &&& (e matches Expr::Decl { name, typ, is_mutable, value, .. } ==> (is_leaf(*value) ==> res is Ok
        && actions.len() == 0
        && after.variables.as_map() == before.variables.as_map().insert(name@, Variable {
            value: *value, typ: match typ { Some(t) => t, None => Type::Any }, is_mutable })
        && after.functions == before.functions && after.structdefs == before.structdefs
        && after.uniontypes == before.uniontypes))
    &&& (e matches Expr::Assignment { name, .. } ==> (res is Ok ==> after.variables.has(name@)
        && after.variables.as_map()[name@].is_mutable))
    &&& (e matches Expr::Assignment { name, value, symbol } ==> (is_leaf(*value) ==> res is Ok
        && actions.len() == 0
        && after.variables.as_map() == before.variables.as_map().insert(name@, Variable {
            value: *value, typ: match symbol { Some(s) => s.typ, None => run_type(*value) }, is_mutable: true })
        && after.functions == before.functions && after.structdefs == before.structdefs
        && after.uniontypes == before.uniontypes))
    &&& (e matches Expr::FunctionDef { name, .. } ==> res is Ok && actions.len() == 0
        && after.functions.has(name@))
    &&& (e matches Expr::StructDef { name, .. } ==> res is Ok && actions.len() == 0
        && after.structdefs.has(name@))
    &&& (e matches Expr::UnionType { name, .. } ==> res is Ok && actions.len() == 0
        && after.uniontypes.has(name@))
    &&& (e matches Expr::BuiltInCall { function: BuiltInFunction::Print, args, .. } ==>
        (args@.len() >= 1 && is_leaf(args@[0]) ==> res is Ok
            && actions == seq![RunAction::Print(actions[0]->Print_0)]
            && actions[0]->Print_0@ == value_text(args@[0])))
    &&& (e matches Expr::BuiltInCall { function: BuiltInFunction::Print, args, .. } ==>
        (args@.len() >= 1 && args@[0] is VariableRef && before.variables.has(args@[0]->VariableRef_name@)
            && is_leaf(before.variables.as_map()[args@[0]->VariableRef_name@].value) ==> res is Ok
            && actions == seq![RunAction::Print(actions[0]->Print_0)]
            && actions[0]->Print_0@ == value_text(before.variables.as_map()[args@[0]->VariableRef_name@].value)))
    &&& (e matches Expr::BuiltInCall { function: BuiltInFunction::LastWord, args, .. } ==>
        (args@.len() >= 1 && is_leaf(args@[0]) ==> res is Ok
            && actions == seq![RunAction::Print(actions[0]->Print_0), RunAction::Exit]
            && actions[0]->Print_0@ == value_text(args@[0])))
    &&& (e matches Expr::Call { target: None, name, .. } ==> (!before.functions.has(name@)
        ==> res == Err::<(), RunError>(RunError::UnknownFunction(name)) && actions.len() == 0))
    &&& (e matches Expr::Loop { var_name, .. } ==> (res is Ok && !(actions.len() > 0 && actions.last() is Exit)
        ==> !after.variables.has(var_name@)))
    &&& (e matches Expr::If { condition, then_branch, else_branch } ==> (is_leaf(*condition)
        && (*condition == Expr::Bool(true) ==> then_branch@.len() == 0)
        && (*condition == Expr::Bool(false) ==> else_branch@.len() == 0)
        ==> res is Ok && actions.len() == 0 && after == before))
    &&& (inert(e) ==> res is Ok && actions.len() == 0 && after == before)
}

/// The statements `stmts[0..n]` ran one after another: statement `k` took
/// `states[k]` to `states[k + 1]`, asked for `outs[k]` and gave `ress[k]`,
/// as `statement_outcome` says; all but the last succeeded without asking
/// to stop.
pub open spec fn ran(stmts: Seq<Expr>, n: int, states: Seq<Runner>, outs: Seq<Seq<RunAction>>,
    ress: Seq<Result<(), RunError>>) -> bool {
    &&& 0 <= n <= stmts.len()
    &&& states.len() == n + 1
    &&& outs.len() == n
    &&& ress.len() == n
    &&& forall|k: int| #![trigger outs[k]] 0 <= k < n
        ==> statement_outcome(states[k], states[k + 1], stmts[k], outs[k], ress[k])
    &&& forall|k: int| #![trigger ress[k]] 0 <= k < n - 1 ==> ress[k] is Ok && !ends_with_exit(outs[k])
}

/// Running the block `stmts` took `before` to `after`, asked for `actions`
/// and gave `res`: its statements ran in order until one failed, one asked
/// to stop, or all had run.
pub open spec fn block_ran(stmts: Seq<Expr>, before: Runner, after: Runner, actions: Seq<RunAction>,
    res: Result<(), RunError>) -> bool {
    exists|n: int, states: Seq<Runner>, outs: Seq<Seq<RunAction>>, ress: Seq<Result<(), RunError>>|
        #[trigger] ran(stmts, n, states, outs, ress)
        && states[0] == before && states[n] == after && actions == outs.flatten()
        && (n < stmts.len() ==> n > 0 && (ress[n - 1] is Err || ends_with_exit(outs[n - 1])))
        && (n > 0 && ress[n - 1] is Err ==> res == ress[n - 1])
        && ((n == 0 || ress[n - 1] is Ok) ==> res is Ok)
}

/// Whether a statement is a `break` or a `continue`.
pub open spec fn is_jump(e: Expr) -> bool {
    e is Break || e is Continue
}

/// The position of the first `break` or `continue` of a block of its own
/// from position `i` on, or the block's length where there is none.
pub open spec fn first_jump_from(body: Seq<Expr>, i: int) -> int
    decreases body.len() - i,
{
    if i >= body.len() {
        body.len() as int
    } else if is_jump(body[i]) {
        i
    } else {
        first_jump_from(body, i + 1)
    }
}

/// The position of a block's first `break` or `continue`, or its length.
pub open spec fn first_jump(body: Seq<Expr>) -> int {
    first_jump_from(body, 0)
}

/// The statements of a block that run in a round of a loop: those before
/// its first `break` or `continue`.
pub open spec fn jump_free(body: Seq<Expr>) -> Seq<Expr> {
    body.take(first_jump(body))
}

/// Whether a loop's block ends its rounds with a `break`: the loop then
/// binds the next element and stops.
pub open spec fn breaks(body: Seq<Expr>) -> bool {
    first_jump(body) < body.len() && body[first_jump(body)] is Break
}

/// Whether round `k` of a loop skips its block: a block that ends its
/// rounds with a `continue` has the round after each one it ran skip it.
pub open spec fn skips(body: Seq<Expr>, k: int) -> bool {
    first_jump(body) < body.len() && body[first_jump(body)] is Continue && k % 2 == 1
}

/// The first jump of a block is where it says, with none before it.
pub proof fn lemma_first_jump(body: Seq<Expr>, i: int)
    requires
        0 <= i <= body.len(),
        forall|j: int| 0 <= j < i ==> !is_jump(#[trigger] body[j]),
    ensures
        i <= first_jump_from(body, i) <= body.len(),
        first_jump_from(body, i) == first_jump(body),
        forall|j: int| 0 <= j < first_jump(body) ==> !is_jump(#[trigger] body[j]),
        first_jump(body) < body.len() ==> is_jump(body[first_jump(body)]),
    decreases body.len() - i,
{
    if i < body.len() && !is_jump(body[i]) {
        lemma_first_jump(body, i + 1);
    } else if i > 0 {
        lemma_first_jump_back(body, i);
    }
}

/// Stepping back over statements that are no jumps keeps the first jump.
proof fn lemma_first_jump_back(body: Seq<Expr>, i: int)
    requires
        0 <= i <= body.len(),
        forall|j: int| 0 <= j < i ==> !is_jump(#[trigger] body[j]),
    ensures
        first_jump_from(body, i) == first_jump(body),
    decreases i,
{
    if i > 0 {
        assert(!is_jump(body[i - 1]));
        assert(first_jump_from(body, i - 1) == first_jump_from(body, i));
        lemma_first_jump_back(body, i - 1);
    }
}

/// `b` is `a` with the loop variable `var` bound to some value, of type
/// `Any` and not mutable.
pub open spec fn binds(a: Runner, b: Runner, var: Seq<char>) -> bool {
    &&& b.variables.has(var)
    &&& b.variables.as_map() == a.variables.as_map().insert(var, b.variables.as_map()[var])
    &&& b.variables.as_map()[var].typ == Type::Any
    &&& !b.variables.as_map()[var].is_mutable
    &&& b.functions == a.functions
    &&& b.structdefs == a.structdefs
    &&& b.uniontypes == a.uniontypes
    &&& b.arena == a.arena
}

/// `m` rounds of a loop ran: round `k` bound `var` in `tops[k]`, giving
/// `bound[k]`, and ran the block `body` up to its first jump from there to
/// `tops[k + 1]` (or skipped it), asking for `outs[k]` and giving
/// `ress[k]`; all but the last succeeded without asking to stop.
pub open spec fn rounds(var: Seq<char>, body: Seq<Expr>, m: int, tops: Seq<Runner>, bound: Seq<Runner>,
    outs: Seq<Seq<RunAction>>, ress: Seq<Result<(), RunError>>) -> bool {
    &&& 0 <= m
    &&& tops.len() == m + 1
    &&& bound.len() == m
    &&& outs.len() == m
    &&& ress.len() == m
    &&& forall|k: int| #![trigger bound[k]] 0 <= k < m
        ==> round_ran(var, body, k, tops[k], bound[k], tops[k + 1], outs[k], ress[k])
    &&& forall|k: int| #![trigger ress[k]] 0 <= k < m - 1 ==> ress[k] is Ok && !ends_with_exit(outs[k])
}

/// Round `k` of a loop bound `var` in `top`, giving `bound`, and then
/// skipped its block, or ran the block's statements before its first jump
/// from there to `next`, asking for `out` and giving `res`.
pub open spec fn round_ran(var: Seq<char>, body: Seq<Expr>, k: int, top: Runner, bound: Runner, next: Runner,
    out: Seq<RunAction>, res: Result<(), RunError>) -> bool {
    &&& binds(top, bound, var)
    &&& skips(body, k) ==> next == bound && out.len() == 0 && res == Ok::<(), RunError>(())
    &&& !skips(body, k) ==> block_ran(jump_free(body), bound, next, out, res)
}

/// Running a loop that binds `var` to each of `count` elements in turn and
/// runs `body` for it took `before` to `after`, asked for `actions` and
/// gave `res`: the rounds ran in order until a block failed or asked to
/// stop, an element's evaluation failed, a `break` ended the rounds (once
/// the next element is bound), or all had run, after which the variable is
/// gone. A block's statements run up to its first `break` or `continue`;
/// a `continue` has the next round skip the block.
pub open spec fn loop_ran(var: Seq<char>, body: Seq<Expr>, count: int, before: Runner, after: Runner,
    actions: Seq<RunAction>, res: Result<(), RunError>) -> bool {
    exists|m: int, tops: Seq<Runner>, bound: Seq<Runner>, outs: Seq<Seq<RunAction>>, ress: Seq<Result<(), RunError>>|
        #[trigger] rounds(var, body, m, tops, bound, outs, ress)
        && tops[0] == before && m <= count && actions == outs.flatten()
        && (breaks(body) ==> m <= 1)
        && if m > 0 && (ress[m - 1] is Err || ends_with_exit(outs[m - 1])) {
            &&& after == tops[m]
            &&& ress[m - 1] is Err ==> res == ress[m - 1]
            &&& ress[m - 1] is Ok ==> res is Ok
        } else if m < count && breaks(body) && m == 1 {
            ||| res is Err && after == tops[m]
            ||| res is Ok && after.variables.as_map() == tops[m].variables.as_map().remove(var)
                && after.functions == tops[m].functions && after.structdefs == tops[m].structdefs
                && after.uniontypes == tops[m].uniontypes
        } else if m < count {
            res is Err && after == tops[m]
        } else {
            &&& res is Ok
            &&& after.variables.as_map() == tops[m].variables.as_map().remove(var)
            &&& after.functions == tops[m].functions
            &&& after.structdefs == tops[m].structdefs
            &&& after.uniontypes == tops[m].uniontypes
        }
}

/// What a declaration does with its value: where evaluating it fails, the
/// error is the result and nothing changes; otherwise the variable holds
/// the evaluated value with the declared type (or `Any`) and mutability,
/// and nothing else changes.
pub open spec fn decl_ran(name: Seq<char>, typ: Type, is_mutable: bool, value: Expr, before: Runner, after: Runner,
    actions: Seq<RunAction>, res: Result<(), RunError>) -> bool {
    exists|v: Result<Expr, RunError>| #[trigger] evaluates(value, before.variables.as_map(), v) && match v {
        Err(x) => res == Err::<(), RunError>(x) && actions.len() == 0 && after == before,
        Ok(x) => {
            &&& res is Ok
            &&& actions.len() == 0
            &&& after.variables.as_map() == before.variables.as_map().insert(name,
                Variable { value: x, typ, is_mutable })
            &&& after.functions == before.functions
            &&& after.structdefs == before.structdefs
            &&& after.uniontypes == before.uniontypes
        },
    }
}

/// Whether entry `k` of a conditional's further branches is passed over
/// when its condition evaluated to `c`: a further condition whose value is
/// not `true`, or an entry that is no branch.
pub open spec fn passed_with(b: Expr, vars: Map<Seq<char>, Variable>, c: Result<Expr, RunError>) -> bool {
    match b {
        Expr::ElseIf { condition, .. } => evaluates(*condition, vars, c) && c is Ok
            && c != Ok::<Expr, RunError>(Expr::Bool(true)),
        Expr::Else { .. } => false,
        _ => true,
    }
}

/// What a conditional's further branches do once its first condition was
/// false: the entries before `n` are passed over (their conditions
/// evaluated to `cs`); if every entry is, nothing happens; otherwise entry
/// `n` is the last branch, or a further condition that evaluated to `true`
/// and runs its block, or one whose evaluation failed with that error.
pub open spec fn else_ran(branches: Seq<Expr>, before: Runner, after: Runner, actions: Seq<RunAction>,
    res: Result<(), RunError>) -> bool {
    exists|n: int, cs: Seq<Result<Expr, RunError>>| #[trigger] else_ran_at(branches, before, after, actions, res, n, cs)
}

/// `else_ran` with entry `n` the one that decided, and `cs` the values
/// the further conditions evaluated to.
pub open spec fn else_ran_at(branches: Seq<Expr>, before: Runner, after: Runner, actions: Seq<RunAction>,
    res: Result<(), RunError>, n: int, cs: Seq<Result<Expr, RunError>>) -> bool {
    {
        &&& 0 <= n <= branches.len()
        &&& cs.len() == branches.len()
        &&& forall|k: int| 0 <= k < n ==> #[trigger] passed_with(branches[k], before.variables.as_map(), cs[k])
        &&& if n == branches.len() {
            res is Ok && actions.len() == 0 && after == before
        } else {
            match #[trigger] branches[n] {
                Expr::Else { then_branch } => block_ran(then_branch@, before, after, actions, res),
                Expr::ElseIf { condition, then_branch } => evaluates(*condition, before.variables.as_map(), cs[n])
                    && match cs[n] {
                        Err(x) => res == Err::<(), RunError>(x) && actions.len() == 0 && after == before,
                        Ok(c) => c == Expr::Bool(true) && block_ran(then_branch@, before, after, actions, res),
                    },
                _ => false,
            }
        }
    }
}

/// What a conditional does with the value of its condition: an error is
/// the result and changes nothing; `true` runs the first block; `false`
/// goes on with the further branches; any other value does nothing.
pub open spec fn if_ran(condition: Expr, then_branch: Seq<Expr>, else_branch: Seq<Expr>, before: Runner,
    after: Runner, actions: Seq<RunAction>, res: Result<(), RunError>) -> bool {
    exists|c: Result<Expr, RunError>| #[trigger] evaluates(condition, before.variables.as_map(), c) && match c {
        Err(x) => res == Err::<(), RunError>(x) && actions.len() == 0 && after == before,
        Ok(Expr::Bool(true)) => block_ran(then_branch, before, after, actions, res),
        Ok(Expr::Bool(false)) => else_ran(else_branch, before, after, actions, res),
        Ok(_) => res is Ok && actions.len() == 0 && after == before,
    }
}

/// What calling a defined function by name does: a copy of its body (see
/// `copies_of`) runs in the running program, its arguments unused.
pub open spec fn call_ran(e: Expr, before: Runner, after: Runner, actions: Seq<RunAction>,
    res: Result<(), RunError>) -> bool {
    e matches Expr::Call { target: None, name, .. } ==> (before.functions.has(name@) ==>
        exists|body: Seq<Expr>| #[trigger] copies_of(body, before.functions.as_map()[name@].body@)
            && block_ran(body, before, after, actions, res))
}

/// What a conditional or loop does beyond `statement_outcome`: where its
/// condition is true, a conditional runs its block; where it is false, the
/// first further branch whose condition is true, or the last branch, runs
/// its block, and nothing happens when every entry is passed over; a loop
/// over a list runs its rounds as `loop_ran` says.
pub open spec fn control_outcome(before: Runner, after: Runner, e: Expr, actions: Seq<RunAction>,
    res: Result<(), RunError>) -> bool {
    &&& (e matches Expr::If { condition, then_branch, .. } ==>
        (value_of(*condition, before.variables.as_map(), MAX_DEPTH as nat)
            == Some(Ok::<Known, RunError>(Known::Exact(Expr::Bool(true))))
        ==> block_ran(then_branch@, before, after, actions, res)))
    &&& (e matches Expr::If { condition, else_branch, .. } ==>
        (value_of(*condition, before.variables.as_map(), MAX_DEPTH as nat)
            == Some(Ok::<Known, RunError>(Known::Exact(Expr::Bool(false))))
        ==> (forall|j: int| #[trigger] branch_taken(else_branch@, before.variables.as_map(), j)
                ==> block_ran(branch_block(else_branch@[j]), before, after, actions, res))
            && ((forall|i: int| 0 <= i < else_branch@.len()
                ==> #[trigger] passed_over(else_branch@[i], before.variables.as_map()))
                ==> res is Ok && actions.len() == 0 && after == before)))
    &&& (e matches Expr::Loop { var_name, iterable, body } ==>
        (value_of(*iterable, before.variables.as_map(), MAX_DEPTH as nat) matches Some(Ok(Known::ListOf(ks)))
        ==> loop_ran(var_name@, body@, ks.len() as int, before, after, actions, res)))
    &&& (e matches Expr::If { condition, then_branch, else_branch } ==>
        if_ran(*condition, then_branch@, else_branch@, before, after, actions, res))
    &&& (e matches Expr::Decl { name, typ, is_mutable, value, .. } ==>
        decl_ran(name@, match typ { Some(t) => t, None => Type::Any }, is_mutable, *value, before, after, actions, res))
}

/// The block of an entry that follows a conditional's first block.
pub open spec fn branch_block(b: Expr) -> Seq<Expr> {
    match b {
        Expr::ElseIf { then_branch, .. } => then_branch@,
        Expr::Else { then_branch } => then_branch@,
        _ => Seq::empty(),
    }
}

/// Whether a value known as `k` is not the truth value `true`.
pub open spec fn not_true(k: Known) -> bool {
    match k {
        Known::Exact(x) => x != Expr::Bool(true),
        Known::Anything => false,
        _ => true,
    }
}

/// Whether an entry after a conditional's first block is known to be
/// passed over with the variables `vars`: a further condition whose value
/// is known not to be true, or an entry that is no branch.
pub open spec fn passed_over(b: Expr, vars: Map<Seq<char>, Variable>) -> bool {
    match b {
        Expr::ElseIf { condition, .. } => value_of(*condition, vars, MAX_DEPTH as nat) matches Some(Ok(k))
            && not_true(k),
        Expr::Else { .. } => false,
        _ => true,
    }
}

/// Whether the entry `j` of `branches` is the one that runs when the first
/// condition is false: every entry before it is passed over, and it is the
/// last branch or a further condition whose value is `true`.
pub open spec fn branch_taken(branches: Seq<Expr>, vars: Map<Seq<char>, Variable>, j: int) -> bool {
    &&& 0 <= j < branches.len()
    &&& forall|i: int| 0 <= i < j ==> #[trigger] passed_over(branches[i], vars)
    &&& match branches[j] {
        Expr::ElseIf { condition, .. } => value_of(*condition, vars, MAX_DEPTH as nat)
            == Some(Ok::<Known, RunError>(Known::Exact(Expr::Bool(true)))),
        Expr::Else { .. } => true,
        _ => false,
    }
}

/// A declaration of a literal stores it: after the statement ran, the
/// variable exists and holds exactly that literal, so a reference to it
/// evaluates to the literal.
pub proof fn lemma_declared_literal_is_stored(before: Runner, after: Runner, e: Expr, actions: Seq<RunAction>,
    res: Result<(), RunError>)
    requires
        statement_outcome(before, after, e, actions, res),
        e is Decl,
        is_leaf(*e->Decl_value),
    ensures
        res is Ok,
        after.variables.has(e->Decl_name@),
        after.variables.as_map()[e->Decl_name@].value == *e->Decl_value,
        is_leaf(after.variables.as_map()[e->Decl_name@].value),
{
    assert(after.variables.as_map().dom().contains(e->Decl_name@));
}

/// Runs one statement and gives back what it asked to print, and whether
/// it failed.
pub fn run_statement(ctx: &mut Runner, expr: &Expr) -> (r: (Vec<RunAction>, Result<(), RunError>))
    requires
        old(ctx).wf(),
    ensures
        final(ctx).wf(),
        statement_outcome(*old(ctx), *final(ctx), *expr, r.0@, r.1),
        control_outcome(*old(ctx), *final(ctx), *expr, r.0@, r.1),
        call_ran(*expr, *old(ctx), *final(ctx), r.0@, r.1),
        exits_only_at_end(r.0@),
        ends_with_exit(r.0@) ==> r.1 is Ok,
{
    let mut out: Vec<RunAction> = Vec::new();
    let res = exec(ctx, expr, &mut out, MAX_DEPTH);
    assert(added(Seq::<RunAction>::empty(), out@) =~= out@);
    match res {
        Ok(_) => (out, Ok(())),
        Err(e) => (out, Err(e)),
    }
}

/// A prefix of a prefix is a prefix.
proof fn lemma_prefix_trans(a: Seq<RunAction>, b: Seq<RunAction>, c: Seq<RunAction>)
    requires
        a.is_prefix_of(b),
        b.is_prefix_of(c),
    ensures
        a.is_prefix_of(c),
{
    assert forall|i: int| 0 <= i < a.len() implies a[i] == c[i] by {
        assert(a[i] == b[i]);
        assert(b[i] == c[i]);
    }
    assert(a =~= c.subrange(0, a.len() as int));
}

/// What a program stores it reads back: after a declaration of a literal,
/// printing the variable prints that literal's text.
pub proof fn lemma_declared_literal_prints_back(r0: Runner, r1: Runner, r2: Runner, decl: Expr,
    a1: Seq<RunAction>, res1: Result<(), RunError>, print: Expr, a2: Seq<RunAction>, res2: Result<(), RunError>)
    requires
        statement_outcome(r0, r1, decl, a1, res1),
        statement_outcome(r1, r2, print, a2, res2),
        decl is Decl,
        is_leaf(*decl->Decl_value),
        print is BuiltInCall,
        print->BuiltInCall_function == BuiltInFunction::Print,
        print->BuiltInCall_args@.len() >= 1,
        print->BuiltInCall_args@[0] is VariableRef,
        print->BuiltInCall_args@[0]->VariableRef_name@ == decl->Decl_name@,
    ensures
        res1 is Ok,
        a1.len() == 0,
        res2 is Ok,
        a2.len() == 1,
        a2[0] is Print,
        a2[0]->Print_0@ == value_text(*decl->Decl_value),
{
    lemma_declared_literal_is_stored(r0, r1, decl, a1, res1);
}

/// Whether no action but the last one asks to stop.
pub open spec fn exits_only_at_end(s: Seq<RunAction>) -> bool {
    forall|i: int| 0 <= i < s.len() - 1 ==> !(#[trigger] s[i] is Exit)
}

/// Whether the last action asks to stop.
pub open spec fn ends_with_exit(s: Seq<RunAction>) -> bool {
    s.len() > 0 && s.last() is Exit
}

/// Running one more statement after others that did not stop: the actions
/// still ask to stop only at their end, and end so exactly when the last
/// statement's do.
proof fn lemma_step(a: Seq<RunAction>, b: Seq<RunAction>, c: Seq<RunAction>)
    requires
        a.is_prefix_of(b),
        b.is_prefix_of(c),
        exits_only_at_end(added(a, b)),
        !ends_with_exit(added(a, b)),
        exits_only_at_end(added(b, c)),
    ensures
        a.is_prefix_of(c),
        exits_only_at_end(added(a, c)),
        ends_with_exit(added(a, c)) == ends_with_exit(added(b, c)),
{
    lemma_prefix_trans(a, b, c);
    let x = added(a, b);
    let y = added(b, c);
    assert(added(a, c) =~= x + y);
    assert forall|i: int| 0 <= i < x.len() implies !(#[trigger] x[i] is Exit) by {
        if i < x.len() - 1 {
            assert(!(x[i] is Exit));
        }
    }
    assert forall|i: int| 0 <= i < (x + y).len() - 1 implies !(#[trigger] (x + y)[i] is Exit) by {
        if i < x.len() {
            assert((x + y)[i] == x[i]);
        } else {
            assert((x + y)[i] == y[i - x.len()]);
        }
    }
    if y.len() == 0 {
        assert(x + y =~= x);
    }
}

/// The actions added after `a` up to `c` are those up to `b` and then
/// those after `b`.
proof fn lemma_added_split(a: Seq<RunAction>, b: Seq<RunAction>, c: Seq<RunAction>)
    requires
        a.is_prefix_of(b),
        b.is_prefix_of(c),
    ensures
        added(a, c) == added(a, b) + added(b, c),
{
    assert(added(a, c) =~= added(a, b) + added(b, c));
}

/// What a block that ran `n` statements with results `ress` gives.
pub open spec fn block_result(n: int, ress: Seq<Result<(), RunError>>) -> Result<(), RunError> {
    if n > 0 && ress[n - 1] is Err { ress[n - 1] } else { Ok(()) }
}

/// A round of a loop that ended (at the end of its block, or where a
/// statement failed or asked to stop) extends the rounds before it.
proof fn lemma_round_ends(var: Seq<char>, body: Seq<Expr>, k: int, tops: Seq<Runner>, bound: Seq<Runner>,
    routs: Seq<Seq<RunAction>>, rress: Seq<Result<(), RunError>>, top: Runner, bk: Runner, cur: Runner,
    states: Seq<Runner>, outs: Seq<Seq<RunAction>>, ress: Seq<Result<(), RunError>>, n: int,
    out0: Seq<RunAction>, outk: Seq<RunAction>, out: Seq<RunAction>)
    requires
        rounds(var, body, k, tops, bound, routs, rress),
        tops[k] == top,
        binds(top, bk, var),
        !skips(body, k),
        ran(jump_free(body), n, states, outs, ress),
        states[0] == bk,
        states[n] == cur,
        n < jump_free(body).len() ==> n > 0 && (ress[n - 1] is Err || ends_with_exit(outs[n - 1])),
        k > 0 ==> rress[k - 1] is Ok && !ends_with_exit(routs[k - 1]),
        out0.is_prefix_of(outk),
        outk.is_prefix_of(out),
        added(outk, out) == outs.flatten(),
        added(out0, outk) == routs.flatten(),
    ensures
        block_ran(jump_free(body), bk, cur, outs.flatten(), block_result(n, ress)),
        rounds(var, body, k + 1, tops.push(cur), bound.push(bk), routs.push(outs.flatten()),
            rress.push(block_result(n, ress))),
        added(out0, out) == routs.push(outs.flatten()).flatten(),
        n > 0 && ends_with_exit(outs[n - 1]) ==> ends_with_exit(outs.flatten()),
        ends_with_exit(outs.flatten()) ==> n > 0 && ends_with_exit(outs[n - 1]),
{
    assert(ran(jump_free(body), n, states, outs, ress));
    lemma_added_split(out0, outk, out);
    routs.lemma_flatten_push(outs.flatten());
    if n > 0 {
        outs.drop_last().lemma_flatten_push(outs[n - 1]);
        assert(outs.drop_last().push(outs[n - 1]) =~= outs);
        if !ends_with_exit(outs[n - 1]) && outs.flatten().len() > 0 {
            if outs[n - 1].len() == 0 {
                assert(outs.flatten() =~= outs.drop_last().flatten());
                assert(n - 1 > 0 || outs.drop_last().flatten().len() == 0);
                if n > 1 {
                    assert(!ends_with_exit(outs[n - 2]));
                    lemma_flatten_tail(outs.drop_last());
                }
            }
        }
    }
    let t2 = tops.push(cur);
    let b2 = bound.push(bk);
    let o2 = routs.push(outs.flatten());
    let r2 = rress.push(block_result(n, ress));
    assert forall|j: int| #![trigger b2[j]] 0 <= j < k + 1
        implies round_ran(var, body, j, t2[j], b2[j], t2[j + 1], o2[j], r2[j]) by {
        if j < k {
            assert(bound[j] == b2[j]);
            assert(routs[j] == o2[j]);
            assert(t2[j + 1] == tops[j + 1]);
            assert(t2[j] == tops[j] && b2[j] == bound[j] && r2[j] == rress[j]);
        } else {
            assert(t2[j] == top && b2[j] == bk && t2[j + 1] == cur);
            assert(o2[j] == outs.flatten() && r2[j] == block_result(n, ress));
            assert(block_ran(jump_free(body), bk, cur, outs.flatten(), block_result(n, ress)));
        }
    }
    assert forall|j: int| #![trigger r2[j]] 0 <= j < k implies r2[j] is Ok && !ends_with_exit(o2[j]) by {
        assert(rress[j] == r2[j]);
        assert(routs[j] == o2[j]);
        if j < k - 1 {
            assert(rress[j] is Ok && !ends_with_exit(routs[j]));
        }
    }
    assert(rounds(var, body, k + 1, t2, b2, o2, r2));
}

/// A round of a loop that skips its block extends the rounds before it.
proof fn lemma_skip_round(var: Seq<char>, body: Seq<Expr>, k: int, tops: Seq<Runner>, bound: Seq<Runner>,
    routs: Seq<Seq<RunAction>>, rress: Seq<Result<(), RunError>>, top: Runner, bk: Runner)
    requires
        rounds(var, body, k, tops, bound, routs, rress),
        tops[k] == top,
        binds(top, bk, var),
        skips(body, k),
        k > 0 ==> rress[k - 1] is Ok && !ends_with_exit(routs[k - 1]),
    ensures
        rounds(var, body, k + 1, tops.push(bk), bound.push(bk), routs.push(Seq::empty()),
            rress.push(Ok(()))),
        routs.push(Seq::<RunAction>::empty()).flatten() == routs.flatten(),
{
    routs.lemma_flatten_push(Seq::<RunAction>::empty());
    assert(routs.flatten() + Seq::<RunAction>::empty() =~= routs.flatten());
    let t2 = tops.push(bk);
    let b2 = bound.push(bk);
    let o2 = routs.push(Seq::<RunAction>::empty());
    let r2 = rress.push(Ok::<(), RunError>(()));
    assert forall|j: int| #![trigger b2[j]] 0 <= j < k + 1
        implies round_ran(var, body, j, t2[j], b2[j], t2[j + 1], o2[j], r2[j]) by {
        if j < k {
            assert(bound[j] == b2[j]);
            assert(routs[j] == o2[j]);
            assert(t2[j + 1] == tops[j + 1]);
            assert(t2[j] == tops[j] && b2[j] == bound[j] && r2[j] == rress[j]);
        } else {
            assert(t2[j] == top && b2[j] == bk && t2[j + 1] == bk);
            assert(o2[j] == Seq::<RunAction>::empty() && r2[j] == Ok::<(), RunError>(()));
        }
    }
    assert forall|j: int| #![trigger r2[j]] 0 <= j < k implies r2[j] is Ok && !ends_with_exit(o2[j]) by {
        assert(rress[j] == r2[j]);
        assert(routs[j] == o2[j]);
        if j < k - 1 {
            assert(rress[j] is Ok && !ends_with_exit(routs[j]));
        }
    }
    assert(rounds(var, body, k + 1, t2, b2, o2, r2));
}

/// The last action of a flattened list of action lists, none of which
/// ends asking to stop, does not ask to stop.
proof fn lemma_flatten_tail(outs: Seq<Seq<RunAction>>)
    requires
        forall|k: int| 0 <= k < outs.len() ==> !ends_with_exit(#[trigger] outs[k]),
    ensures
        !ends_with_exit(outs.flatten()),
    decreases outs.len(),
{
    if outs.len() > 0 {
        lemma_flatten_tail(outs.drop_last());
        outs.drop_last().lemma_flatten_push(outs.last());
        assert(outs.drop_last().push(outs.last()) =~= outs);
        assert(!ends_with_exit(outs[outs.len() - 1]));
    }
}

/// The actions `exec` adds after `before`.
pub open spec fn added(before: Seq<RunAction>, after: Seq<RunAction>) -> Seq<RunAction> {
    after.subrange(before.len() as int, after.len() as int)
}

/// Runs the statements of a block one after another, adding what they
/// print to `out`, until one fails or asks to stop (`Ok(true)`).
#[verifier::loop_isolation(false)]
fn run_block(ctx: &mut Runner, stmts: &Vec<Expr>, out: &mut Vec<RunAction>, depth: usize) -> (r: Result<bool, RunError>)
    requires
        old(ctx).wf(),
    ensures
        final(ctx).wf(),
        old(out)@.is_prefix_of(final(out)@),
        r == Ok::<bool, RunError>(true) ==> final(out)@.len() > old(out)@.len() && final(out)@.last() is Exit,
        exits_only_at_end(added(old(out)@, final(out)@)),
        ends_with_exit(added(old(out)@, final(out)@)) ==> r == Ok::<bool, RunError>(true),
        block_ran(stmts@, *old(ctx), *final(ctx), added(old(out)@, final(out)@),
            match r { Ok(_) => Ok(()), Err(e) => Err(e) }),
    decreases depth, stmts, 0int,
{
    let ghost out0 = out@;
    let ghost mut states: Seq<Runner> = seq![*ctx];
    let ghost mut outs: Seq<Seq<RunAction>> = Seq::empty();
    let ghost mut ress: Seq<Result<(), RunError>> = Seq::empty();
    let mut j: usize = 0;
    assert(added(out0, out@) =~= Seq::<RunAction>::empty());
    while j < stmts.len()
        invariant
            j == 0 ==> *ctx == *old(ctx) && out@ == out0,
            ctx.wf(),
            out0.is_prefix_of(out@),
            exits_only_at_end(added(out0, out@)),
            !ends_with_exit(added(out0, out@)),
            j <= stmts@.len(),
            ran(stmts@, j as int, states, outs, ress),
            states[0] == *old(ctx),
            states[j as int] == *ctx,
            added(out0, out@) == outs.flatten(),
            j > 0 ==> ress[j - 1] is Ok && !ends_with_exit(outs[j - 1]),
        decreases stmts@.len() - j,
    {
        proof {
            assert(decreases_to!(*stmts => stmts@));
            assert(decreases_to!(stmts@ => stmts@[j as int]));
        }
        let ghost mid = out@;
        let res = exec(ctx, &stmts[j], out, depth);
        proof {
            lemma_step(out0, mid, out@);
            let a = added(mid, out@);
            let ru = match &res { Ok(_) => Ok::<(), RunError>(()), Err(e) => Err(*e) };
            lemma_added_split(out0, mid, out@);
            outs.lemma_flatten_push(a);
            states = states.push(*ctx);
            outs = outs.push(a);
            ress = ress.push(ru);
            assert(added(out0, out@) == outs.flatten());
            assert forall|k: int| #![trigger outs[k]] 0 <= k < j + 1
                implies statement_outcome(states[k], states[k + 1], stmts@[k], outs[k], ress[k]) by {
            }
            assert(ran(stmts@, j + 1, states, outs, ress));
        }
        let stop = match res {
            Ok(s) => s,
            Err(e) => return Err(e),
        };
        if stop {
            return Ok(true);
        }
        j = j + 1;
    }
    Ok(false)
}

/// Runs a conditional (`exec` on `If`): the first block where the
/// condition is true; otherwise the first further branch whose condition is
/// true, or the last branch.
#[verifier::loop_isolation(false)]
#[verifier::rlimit(40)]
fn exec_if(ctx: &mut Runner, expr: &Expr, out: &mut Vec<RunAction>, depth: usize) -> (r: Result<bool, RunError>)
    requires
        old(ctx).wf(),
        *expr is If,
    ensures
        final(ctx).wf(),
        old(out)@.is_prefix_of(final(out)@),
        r == Ok::<bool, RunError>(true) ==> final(out)@.len() > old(out)@.len() && final(out)@.last() is Exit,
        exits_only_at_end(added(old(out)@, final(out)@)),
        ends_with_exit(added(old(out)@, final(out)@)) ==> r == Ok::<bool, RunError>(true),
        statement_outcome(*old(ctx), *final(ctx), *expr, added(old(out)@, final(out)@),
            match r { Ok(_) => Ok(()), Err(e) => Err(e) }),
        control_outcome(*old(ctx), *final(ctx), *expr, added(old(out)@, final(out)@),
            match r { Ok(_) => Ok(()), Err(e) => Err(e) }),
    decreases depth, expr, 0int,
{
    let ghost out0 = out@;
    match expr {
        Expr::If { condition, then_branch, else_branch } => {
        let c = match eval(condition, ctx) {
            Ok(v) => v,
            Err(x) => return Err(x),
        };
        match c {
            Expr::Bool(b) => {
                if b {
                    proof {
                        assert(decreases_to!(*expr => expr->If_then_branch));
                    }
                    let res = run_block(ctx, then_branch, out, depth);
                    return res;
                } else {
                    let ghost vars0 = old(ctx).variables.as_map();
                    let ghost mut cs: Seq<Result<Expr, RunError>> =
                        Seq::new(else_branch@.len(), |k: int| Ok::<Expr, RunError>(Expr::Bool(false)));
                    let mut j: usize = 0;
                    while j < else_branch.len()
                        invariant
                            cs.len() == else_branch@.len(),
                            forall|k: int| 0 <= k < j ==> #[trigger] passed_with(else_branch@[k], vars0, cs[k]),
                            *ctx == *old(ctx) && out@ == out0,
                            ctx.wf(),
                            j <= else_branch@.len(),
                            *expr == (Expr::If { condition: *condition, then_branch: *then_branch,
                                else_branch: *else_branch }),
                            vars0 == ctx.variables.as_map(),
                            forall|i: int| 0 <= i < j ==> !#[trigger] branch_taken(else_branch@, vars0, i),
                        decreases else_branch@.len() - j,
                    {
                        proof {
                            assert(decreases_to!(*expr => expr->If_else_branch));
                            assert(decreases_to!(expr->If_else_branch => expr->If_else_branch@));
                            assert(decreases_to!(expr->If_else_branch@ => expr->If_else_branch@[j as int]));
                        }
                        match &else_branch[j] {
                            Expr::ElseIf { condition: c2, then_branch: tb } => {
                                let rc = eval(c2, ctx);
                                proof {
                                    let ncs = cs.update(j as int, rc);
                                    assert forall|k: int| 0 <= k < j implies
                                        #[trigger] passed_with(else_branch@[k], vars0, ncs[k]) by {
                                        assert(ncs[k] == cs[k]);
                                    }
                                    cs = ncs;
                                }
                                let cv = match rc {
                                    Ok(v) => v,
                                    Err(x) => {
                                        proof {
                                            assert(else_ran_at(else_branch@, *old(ctx), *ctx,
                                                added(out0, out@), Err(x), j as int, cs));
                                            assert(!passed_over(else_branch@[j as int], vars0));
                                            assert forall|q: int| !#[trigger] branch_taken(else_branch@, vars0, q) by {
                                                if q > j && branch_taken(else_branch@, vars0, q) {
                                                    assert(passed_over(else_branch@[j as int], vars0));
                                                }
                                            }
                                            assert(added(out0, out@) =~= Seq::<RunAction>::empty());
                                        }
                                        return Err(x);
                                    },
                                };
                                match cv {
                                    Expr::Bool(true) => {
                                        proof {
                                            assert(decreases_to!(expr->If_else_branch@[j as int]
                                                => expr->If_else_branch@[j as int]->ElseIf_then_branch));
                                            assert(!passed_over(else_branch@[j as int], vars0));
                                            assert forall|q: int| #[trigger] branch_taken(else_branch@, vars0, q)
                                                implies q == j by {
                                                if q > j {
                                                    assert(passed_over(else_branch@[j as int], vars0));
                                                }
                                            }
                                        }
                                        let res = run_block(ctx, tb, out, depth);
                                        proof {
                                            assert(else_ran_at(else_branch@, *old(ctx), *ctx, added(out0, out@),
                                                match res { Ok(_) => Ok(()), Err(e) => Err(e) }, j as int, cs));
                                        }
                                        return res;
                                    },
                                    _ => {
                                        proof {
                                            assert(!branch_taken(else_branch@, vars0, j as int));
                                            assert(passed_with(else_branch@[j as int], vars0, cs[j as int]));
                                        }
                                    },
                                }
                            },
                            Expr::Else { then_branch: tb } => {
                                proof {
                                    assert(decreases_to!(expr->If_else_branch@[j as int]
                                        => expr->If_else_branch@[j as int]->Else_then_branch));
                                    assert(!passed_over(else_branch@[j as int], vars0));
                                    assert forall|q: int| #[trigger] branch_taken(else_branch@, vars0, q)
                                        implies q == j by {
                                        if q > j {
                                            assert(passed_over(else_branch@[j as int], vars0));
                                        }
                                    }
                                }
                                let res = run_block(ctx, tb, out, depth);
                                proof {
                                    assert(else_ran_at(else_branch@, *old(ctx), *ctx, added(out0, out@),
                                        match res { Ok(_) => Ok(()), Err(e) => Err(e) }, j as int, cs));
                                }
                                return res;
                            },
                            _ => {
                                proof {
                                    assert(passed_with(else_branch@[j as int], vars0, cs[j as int]));
                                }
                            },
                        }
                        j = j + 1;
                    }
                    assert(added(out0, out@) =~= Seq::<RunAction>::empty());
                    assert(else_ran_at(else_branch@, *old(ctx), *ctx, added(out0, out@), Ok(()), j as int, cs));
                }
            },
            _ => {},
        }
        Ok(false)
        },
        _ => {
            proof {
                assert(false);
            }
            Ok(false)
        },
    }
}

/// Runs a statement, adding what it prints to `out`; `Ok(true)` when the
/// program asked to stop. Calls reach at most `depth` levels deep.
#[verifier::loop_isolation(false)]
#[verifier::rlimit(80)]
fn exec(ctx: &mut Runner, expr: &Expr, out: &mut Vec<RunAction>, depth: usize) -> (r: Result<bool, RunError>)
    requires
        old(ctx).wf(),
    ensures
        final(ctx).wf(),
        old(out)@.is_prefix_of(final(out)@),
        r == Ok::<bool, RunError>(true) ==> final(out)@.len() > old(out)@.len() && final(out)@.last() is Exit,
        exits_only_at_end(added(old(out)@, final(out)@)),
        ends_with_exit(added(old(out)@, final(out)@)) ==> r == Ok::<bool, RunError>(true),
        statement_outcome(*old(ctx), *final(ctx), *expr, added(old(out)@, final(out)@),
            match r { Ok(_) => Ok(()), Err(e) => Err(e) }),
        control_outcome(*old(ctx), *final(ctx), *expr, added(old(out)@, final(out)@),
            match r { Ok(_) => Ok(()), Err(e) => Err(e) }),
        depth > 0 ==> call_ran(*expr, *old(ctx), *final(ctx), added(old(out)@, final(out)@),
            match r { Ok(_) => Ok(()), Err(e) => Err(e) }),
        *expr matches Expr::BuiltInCall { function: BuiltInFunction::LastWord, args, .. } ==>
            (args@.len() >= 1 && is_leaf(args@[0]) ==> r == Ok::<bool, RunError>(true)),
        *expr matches Expr::BuiltInCall { function: BuiltInFunction::Print, args, .. } ==>
            (args@.len() >= 1 && is_leaf(args@[0]) ==> r == Ok::<bool, RunError>(false)),
        inert(*expr) ==> r == Ok::<bool, RunError>(false),
    decreases depth, expr, 1int,
{
    let ghost out0 = out@;
    match expr {
        Expr::Decl { name, typ, is_mutable, value, .. } => {
            let v = match eval(value, ctx) {
                Ok(v) => v,
                Err(x) => return Err(x),
            };
            let t = match typ {
                Some(t) => clone_type(t),
                None => Type::Any,
            };
            ctx.variables.insert(name.clone(), Variable { value: v, typ: t, is_mutable: *is_mutable });
            assert(added(out0, out@) =~= Seq::<RunAction>::empty());
            Ok(false)
        },
        Expr::UnionType { name, fields, methods, .. } => {
            let mut fs: Vec<(String, Type)> = Vec::new();
            let mut i: usize = 0;
            while i < fields.len()
                invariant
                    i <= fields@.len(),
                decreases fields@.len() - i,
            {
                fs.push((fields[i].0.clone(), clone_type(&fields[i].1)));
                i = i + 1;
            }
            ctx.uniontypes.insert(name.clone(), UnionType { name: name.clone(), fields: fs, methods: method_list(methods) });
            assert(added(out0, out@) =~= Seq::<RunAction>::empty());
            Ok(false)
        },
        Expr::BuiltInCall { function, args, .. } => {
            match function {
                BuiltInFunction::Print | BuiltInFunction::LastWord => {
                    if args.len() < 1 {
                        return Err(RunError::MissingArgument);
                    }
                    let arg = match eval(&args[0], ctx) {
                        Ok(v) => v,
                        Err(x) => return Err(x),
                    };
                    let output = print_interpreter(&arg, ctx);
                    proof {
                        match value_of(args@[0], ctx.variables.as_map(), MAX_DEPTH as nat) {
                            Some(Ok(k)) => {
                                if known_text(k) is Some {
                                    crate::runner::builtin::print::lemma_known_text(arg, k);
                                }
                            },
                            _ => {},
                        }
                    }
                    out.push(RunAction::Print(output));
                    let stop = match function {
                        BuiltInFunction::LastWord => {
                            out.push(RunAction::Exit);
                            true
                        },
                        _ => false,
                    };
                    proof {
                        if stop {
                            assert(added(out0, out@) =~= seq![out@[out0.len() as int], RunAction::Exit]);
                        } else {
                            assert(added(out0, out@) =~= seq![out@[out0.len() as int]]);
                        }
                    }
                    Ok(stop)
                },
                _ => {
                    assert(added(out0, out@) =~= Seq::<RunAction>::empty());
                    Ok(false)
                },
            }
        },
        Expr::Loop { var_name, iterable, body } => {
            let iterable = match eval(iterable, ctx) {
                Ok(v) => v,
                Err(x) => return Err(x),
            };
            let ghost track: bool = value_of(*expr->Loop_iterable, old(ctx).variables.as_map(), MAX_DEPTH as nat)
                matches Some(Ok(Known::ListOf(_)));
            let ghost fj = first_jump(body@);
            let ghost jf = jump_free(body@);
            proof {
                lemma_first_jump(body@, 0);
            }
            let ghost mut tops: Seq<Runner> = seq![*ctx];
            let ghost mut bound: Seq<Runner> = Seq::empty();
            let ghost mut routs: Seq<Seq<RunAction>> = Seq::empty();
            let ghost mut rress: Seq<Result<(), RunError>> = Seq::empty();
            let ghost mut broke: bool = false;
            match iterable {
                Expr::List(list) => {
                    let mut if_break = false;
                    let mut if_continue = false;
                    let mut k: usize = 0;
                    while k < list.len()
                        invariant
                            ctx.wf(),
                            out0.is_prefix_of(out@),
                            exits_only_at_end(added(out0, out@)),
                            !ends_with_exit(added(out0, out@)),
                            k <= list@.len(),
                            *expr == (Expr::Loop { var_name: *var_name, iterable: expr->Loop_iterable, body: *body }),
                            fj == first_jump(body@),
                            jf == jump_free(body@),
                            0 <= fj <= body@.len(),
                            forall|q: int| 0 <= q < fj ==> !is_jump(#[trigger] body@[q]),
                            fj < body@.len() ==> is_jump(body@[fj]),
                            !broke,
                            track ==> rounds(var_name@, body@, k as int, tops, bound, routs, rress)
                                && tops[0] == *old(ctx) && tops[k as int] == *ctx
                                && added(out0, out@) == routs.flatten()
                                && (k > 0 ==> rress[k - 1] is Ok && !ends_with_exit(routs[k - 1]))
                                && if_continue == skips(body@, k as int)
                                && if_break == (breaks(body@) && k >= 1)
                                && (breaks(body@) ==> k <= 1),
                        decreases list@.len() - k,
                    {
                        let ghost top = *ctx;
                        let item = match eval(&list[k], ctx) {
                            Ok(v) => v,
                            Err(x) => return Err(x),
                        };
                        ctx.variables.insert(var_name.clone(), Variable { value: item, typ: Type::Any, is_mutable: false });
                        let ghost bk = *ctx;
                        proof {
                            if track {
                                assert(binds(top, bk, var_name@));
                            }
                        }
                        if if_break {
                            proof {
                                broke = true;
                            }
                            break;
                        }
                        if if_continue {
                            if_continue = false;
                            proof {
                                if track {
                                    lemma_skip_round(var_name@, body@, k as int, tops, bound, routs, rress, top, bk);
                                    tops = tops.push(bk);
                                    bound = bound.push(bk);
                                    routs = routs.push(Seq::empty());
                                    rress = rress.push(Ok(()));
                                }
                            }
                            k = k + 1;
                            continue;
                        }
                        let ghost outk = out@;
                        let ghost mut states: Seq<Runner> = seq![*ctx];
                        let ghost mut outs: Seq<Seq<RunAction>> = Seq::empty();
                        let ghost mut ress: Seq<Result<(), RunError>> = Seq::empty();
                        let mut j: usize = 0;
                        while j < body.len()
                            invariant
                                ctx.wf(),
                                out0.is_prefix_of(out@),
                                exits_only_at_end(added(out0, out@)),
                                !ends_with_exit(added(out0, out@)),
                                j <= body@.len(),
                                *expr == (Expr::Loop { var_name: *var_name, iterable: expr->Loop_iterable, body: *body }),
                                out0.is_prefix_of(outk),
                                outk.is_prefix_of(out@),
                                fj == first_jump(body@),
                                jf == jump_free(body@),
                                0 <= fj <= body@.len(),
                                forall|q: int| 0 <= q < fj ==> !is_jump(#[trigger] body@[q]),
                                fj < body@.len() ==> is_jump(body@[fj]),
                                j <= fj,
                                !if_break && !if_continue,
                                track ==> ran(jf, j as int, states, outs, ress)
                                    && states[0] == bk && states[j as int] == *ctx
                                    && added(outk, out@) == outs.flatten()
                                    && (j > 0 ==> ress[j - 1] is Ok && !ends_with_exit(outs[j - 1])),
                            decreases body@.len() - j,
                        {
                            match &body[j] {
                                Expr::Break => {
                                    if_break = true;
                                },
                                Expr::Continue => {
                                    if_continue = true;
                                },
                                stmt => {
                                    proof {
                                        assert(decreases_to!(*expr => expr->Loop_body));
                                        assert(decreases_to!(expr->Loop_body => expr->Loop_body@));
                                        assert(decreases_to!(expr->Loop_body@ => expr->Loop_body@[j as int]));
                                        assert(!is_jump(body@[j as int]));
                                        assert(j < fj);
                                        assert(jf[j as int] == body@[j as int]);
                                    }
                                    let ghost mid = out@;
                                    let res = exec(ctx, stmt, out, depth);
                                    proof {
                                        lemma_step(out0, mid, out@);
                                        if track {
                                            let a = added(mid, out@);
                                            let ru = match &res { Ok(_) => Ok::<(), RunError>(()), Err(e) => Err(*e) };
                                            lemma_added_split(outk, mid, out@);
                                            outs.lemma_flatten_push(a);
                                            states = states.push(*ctx);
                                            outs = outs.push(a);
                                            ress = ress.push(ru);
                                            assert(ran(jf, j + 1, states, outs, ress));
                                        }
                                    }
                                    let stop = match res {
                                        Ok(s) => s,
                                        Err(e) => {
                                            proof {
                                                if track {
                                                    lemma_round_ends(var_name@, body@, k as int, tops, bound, routs, rress,
                                                        top, bk, *ctx, states, outs, ress, j + 1, out0, outk, out@);
                                                }
                                            }
                                            return Err(e);
                                        },
                                    };
                                    if stop {
                                        proof {
                                            if track {
                                                lemma_round_ends(var_name@, body@, k as int, tops, bound, routs, rress,
                                                    top, bk, *ctx, states, outs, ress, j + 1, out0, outk, out@);
                                            }
                                        }
                                        return Ok(true);
                                    }
                                },
                            }
                            if if_break {
                                break;
                            }
                            if if_continue {
                                break;
                            }
                            j = j + 1;
                        }
                        proof {
                            assert(j == fj);
                            if track {
                                lemma_round_ends(var_name@, body@, k as int, tops, bound, routs, rress,
                                    top, bk, *ctx, states, outs, ress, j as int, out0, outk, out@);
                                lemma_added_split(out0, outk, out@);
                                routs.lemma_flatten_push(outs.flatten());
                                tops = tops.push(*ctx);
                                bound = bound.push(bk);
                                routs = routs.push(outs.flatten());
                                rress = rress.push(Ok(()));
                            }
                        }
                        k = k + 1;
                    }
                },
                _ => {},
            }
            let ghost before_remove = *ctx;
            ctx.variables.remove(var_name.as_str());
            proof {
                if track && broke {
                    assert(ctx.variables.as_map() =~= tops[1].variables.as_map().remove(var_name@));
                }
            }
            Ok(false)
        },
        Expr::Assignment { name, value, symbol } => {
            let v = match eval(value, ctx) {
                Ok(v) => v,
                Err(x) => return Err(x),
            };
            let t = match symbol {
                Some(s) => clone_type(&s.typ),
                None => get_run_type(value),
            };
            ctx.variables.insert(name.clone(), Variable { value: v, typ: t, is_mutable: true });
            assert(added(out0, out@) =~= Seq::<RunAction>::empty());
            Ok(false)
        },
        Expr::FunctionDef { name, params, body, return_type, .. } => {
            let rt = match return_type {
                Some(t) => clone_type(t),
                None => Type::Any,
            };
            ctx.functions.insert(name.clone(), FunctionDef {
                params: param_pairs(params),
                body: clone_exprs(body),
                return_type: rt,
            });
            assert(added(out0, out@) =~= Seq::<RunAction>::empty());
            Ok(false)
        },
        Expr::Call { target, name, .. } => {
            match target {
                Some(t) => {
                    let tv = match eval(t, ctx) {
                        Ok(v) => v,
                        Err(x) => return Err(x),
                    };
                    match &tv {
                        Expr::StructInit { name: sname, .. } => {
                            if !ctx.structdefs.contains_key(sname.as_str()) {
                                return Err(RunError::UnknownStruct(sname.clone()));
                            }
                        },
                        _ => {},
                    }
                },
                None => {},
            }
            let body = match ctx.functions.get(name.as_str()) {
                Some(f) => clone_exprs(&f.body),
                None => {
                    assert(added(out0, out@) =~= Seq::<RunAction>::empty());
                    return Err(RunError::UnknownFunction(name.clone()));
                },
            };
            if depth == 0 {
                return Err(RunError::TooDeep);
            }
            run_block(ctx, &body, out, depth - 1)
        },
        Expr::StructDef { name, fields, methods, .. } => {
            let mut fs: Vec<(String, Type, Option<Expr>)> = Vec::new();
            let mut i: usize = 0;
            while i < fields.len()
                invariant
                    i <= fields@.len(),
                decreases fields@.len() - i,
            {
                let d = match &fields[i].2 {
                    Some(x) => Some(crate::parser::ast::clone_expr(x)),
                    None => None,
                };
                fs.push((fields[i].0.clone(), clone_type(&fields[i].1), d));
                i = i + 1;
            }
            ctx.structdefs.insert(name.clone(), StructDef { name: name.clone(), fields: fs, methods: method_list(methods) });
            assert(added(out0, out@) =~= Seq::<RunAction>::empty());
            Ok(false)
        },
        Expr::If { .. } => exec_if(ctx, expr, out, depth),
        _ => {
            assert(added(out0, out@) =~= Seq::<RunAction>::empty());
            Ok(false)
        },
    }
}

} // verus!
