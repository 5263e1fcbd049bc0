use azlang::lexer::FloatLit;
use azlang::parser::ast::{clone_expr, BuiltInFunction, Expr, Parameter, Program, Type};
use azlang::runner::builtin::print::print_interpreter;
use azlang::runner::eval::eval;
use azlang::runner::runner_interpretator::runner_interpretator;
use azlang::runner::values::{ceil_decimal, floor_decimal, isqrt_u64, parse_i64, round_decimal, utf8_length};
use azlang::runner::{RunAction, RunError, Runner};
use bumpalo::Bump;

fn num(n: i64) -> Expr {
    Expr::Number(n)
}

fn float(m: i64, s: u32) -> Expr {
    Expr::Float(FloatLit { mantissa: m, scale: s })
}

fn bin(l: Expr, op: &str, r: Expr) -> Expr {
    Expr::BinaryOp { left: Box::new(l), op: op.to_string(), right: Box::new(r) }
}

fn call(function: BuiltInFunction, args: Vec<Expr>) -> Expr {
    Expr::BuiltInCall { function, args, return_type: Type::Any }
}

fn value(e: Expr) -> Result<Expr, RunError> {
    let arena = Bump::new();
    let runner = Runner::new(&arena);
    eval(&e, &runner)
}

fn number_of(r: Result<Expr, RunError>) -> i64 {
    match r {
        Ok(Expr::Number(n)) => n,
        other => panic!("not a number: {:?}", other),
    }
}

fn text_of(r: Result<Expr, RunError>) -> String {
    match r {
        Ok(Expr::DynamicString(s)) => s,
        other => panic!("not a text: {:?}", other),
    }
}

fn whole_of(r: Result<Expr, RunError>) -> (i64, u32) {
    match r {
        Ok(Expr::Float(f)) => (f.mantissa, f.scale),
        other => panic!("not a decimal: {:?}", other),
    }
}

#[test]
fn arithmetic_on_numbers() {
    assert_eq!(number_of(value(bin(num(2), "+", num(3)))), 5);
    assert_eq!(number_of(value(bin(num(2), "-", num(3)))), -1);
    assert_eq!(number_of(value(bin(num(4), "*", num(3)))), 12);
    assert_eq!(number_of(value(bin(num(7), "/", num(2)))), 3);
    assert_eq!(number_of(value(bin(num(-7), "/", num(2)))), -3);
    assert!(matches!(value(bin(num(3), "==", num(3))), Ok(Expr::Bool(true))));
    assert!(matches!(value(bin(num(3), "%", num(2))), Ok(Expr::Bool(false))));
}

#[test]
fn division_by_zero_is_an_error() {
    assert!(matches!(value(bin(num(1), "/", num(0))), Err(RunError::DivisionByZero)));
}

#[test]
fn overflow_is_an_error() {
    assert!(matches!(value(bin(num(i64::MAX), "+", num(1))), Err(RunError::Overflow)));
    assert!(matches!(value(bin(num(i64::MIN), "/", num(-1))), Err(RunError::Overflow)));
    assert!(matches!(value(call(BuiltInFunction::Mod, vec![num(i64::MIN)])), Err(RunError::Overflow)));
}

#[test]
fn logic_on_truth_values() {
    assert!(matches!(value(bin(Expr::Bool(true), "&&", Expr::Bool(false))), Ok(Expr::Bool(false))));
    assert!(matches!(value(bin(Expr::Bool(true), "||", Expr::Bool(false))), Ok(Expr::Bool(true))));
    assert!(matches!(value(bin(num(1), "&&", Expr::Bool(false))), Ok(Expr::Bool(false))));
}

#[test]
fn time_differences_are_milliseconds() {
    assert_eq!(number_of(value(bin(Expr::Time(1500), "-", Expr::Time(1000)))), 500);
    assert_eq!(number_of(value(bin(Expr::Time(1000), "-", Expr::Time(1500)))), 0);
}

#[test]
fn rounding_decimals() {
    assert_eq!(whole_of(value(call(BuiltInFunction::Ceil, vec![float(25, 1)]))), (3, 0));
    assert_eq!(whole_of(value(call(BuiltInFunction::Floor, vec![float(-25, 1)]))), (-3, 0));
    assert_eq!(whole_of(value(call(BuiltInFunction::Floor, vec![num(4)]))), (4, 0));
    assert_eq!(number_of(value(call(BuiltInFunction::Round, vec![float(25, 1)]))), 3);
    assert_eq!(number_of(value(call(BuiltInFunction::Round, vec![float(-25, 1)]))), -3);
    assert_eq!(number_of(value(call(BuiltInFunction::Round, vec![float(24, 1)]))), 2);
    assert_eq!(ceil_decimal(-25, 1), -2);
    assert_eq!(floor_decimal(25, 1), 2);
    assert_eq!(round_decimal(-24, 1), -2);
}

#[test]
fn square_roots_are_whole() {
    assert_eq!(number_of(value(call(BuiltInFunction::Sqrt, vec![num(17)]))), 4);
    assert_eq!(number_of(value(call(BuiltInFunction::Sqrt, vec![num(16)]))), 4);
    assert_eq!(number_of(value(call(BuiltInFunction::Sqrt, vec![float(1625, 2)]))), 4);
    assert!(matches!(value(call(BuiltInFunction::Sqrt, vec![num(-1)])), Err(RunError::NegativeSqrt)));
    assert_eq!(isqrt_u64(u64::MAX), 4294967295);
}

#[test]
fn absolute_values() {
    assert_eq!(number_of(value(call(BuiltInFunction::Mod, vec![num(-5)]))), 5);
    assert_eq!(whole_of(value(call(BuiltInFunction::Mod, vec![float(-25, 1)]))), (25, 1));
}

#[test]
fn text_functions() {
    assert_eq!(text_of(value(call(BuiltInFunction::ConvertString, vec![num(42)]))), "42");
    assert_eq!(text_of(value(call(BuiltInFunction::ConvertString, vec![float(25, 1)]))), "2.5");
    assert_eq!(text_of(value(call(BuiltInFunction::ConvertString, vec![Expr::Bool(true)]))), "true");
    assert_eq!(text_of(value(call(BuiltInFunction::StrUpper, vec![Expr::String("abc".to_string(), false)]))), "ABC");
    assert_eq!(text_of(value(call(BuiltInFunction::StrLower, vec![Expr::DynamicString("ÇAY".to_string())]))), "çay");
    assert_eq!(text_of(value(call(BuiltInFunction::Trim, vec![Expr::String("  a b \n".to_string(), false)]))), "a b");
}

#[test]
fn numbers_are_read_from_text() {
    assert_eq!(number_of(value(call(BuiltInFunction::Number, vec![Expr::DynamicString("123".to_string())]))), 123);
    assert_eq!(number_of(value(call(BuiltInFunction::Number, vec![Expr::DynamicString("-12".to_string())]))), -12);
    assert_eq!(number_of(value(call(BuiltInFunction::Number, vec![Expr::DynamicString("abc".to_string())]))), 0);
    assert_eq!(parse_i64("+7"), Some(7));
    assert_eq!(parse_i64("9223372036854775808"), None);
    assert_eq!(parse_i64("-9223372036854775808"), Some(i64::MIN));
    assert_eq!(parse_i64(""), None);
}

#[test]
fn lengths_count_bytes_and_elements() {
    assert_eq!(number_of(value(call(BuiltInFunction::Len, vec![Expr::String("şə".to_string(), false)]))), 4);
    assert_eq!(number_of(value(call(BuiltInFunction::Len, vec![Expr::List(vec![num(1), num(2), num(3)])]))), 3);
    assert_eq!(utf8_length("aə€😀"), 10);
}

#[test]
fn sums_minimums_maximums_and_ranges() {
    assert_eq!(number_of(value(call(BuiltInFunction::Sum, vec![num(1), num(2), num(3)]))), 6);
    assert_eq!(number_of(value(call(BuiltInFunction::Sum, vec![Expr::List(vec![num(5), num(6)])]))), 2);
    assert_eq!(number_of(value(call(BuiltInFunction::Min, vec![Expr::List(vec![num(5), num(-2), num(9)])]))), -2);
    assert_eq!(number_of(value(call(BuiltInFunction::Max, vec![Expr::List(vec![num(5), num(-2), num(9)])]))), 9);
    match value(call(BuiltInFunction::Range, vec![num(2), num(5)])) {
        Ok(Expr::List(items)) => {
            assert_eq!(items.len(), 3);
            assert!(matches!(items[0], Expr::Number(2)));
            assert!(matches!(items[2], Expr::Number(4)));
        },
        other => panic!("not a list: {:?}", other),
    }
}

#[test]
fn the_timer_gives_a_time() {
    assert!(matches!(value(call(BuiltInFunction::Timer, vec![])), Ok(Expr::Time(_))));
}

#[test]
fn variables_are_read_from_the_runner() {
    let arena = Bump::new();
    let mut runner = Runner::new(&arena);
    let decl = Expr::Decl {
        name: "x".to_string(),
        transpiled_name: None,
        typ: None,
        is_mutable: false,
        is_primitive: true,
        value: Box::new(num(9)),
    };
    let (actions, res) = runner_interpretator(&mut runner, decl);
    assert!(res.is_ok());
    assert!(actions.is_empty());
    let r = eval(&Expr::VariableRef { name: "x".to_string(), transpiled_name: None, symbol: None }, &runner);
    assert_eq!(number_of(r), 9);
    let unknown = eval(&Expr::VariableRef { name: "Qirmizi".to_string(), transpiled_name: None, symbol: None }, &runner);
    assert_eq!(text_of(unknown), "Qirmizi");
}

#[test]
fn printing_gives_the_value_text() {
    let arena = Bump::new();
    let runner = Runner::new(&arena);
    assert_eq!(print_interpreter(&num(-3), &runner), "-3");
    assert_eq!(print_interpreter(&float(5, 3), &runner), "0.005");
    assert_eq!(print_interpreter(&Expr::List(vec![num(1), Expr::Bool(false)]), &runner), "[1, false]");
    assert_eq!(print_interpreter(&Expr::Char('ə'), &runner), "ə");
}

#[test]
fn a_print_statement_asks_to_print() {
    let arena = Bump::new();
    let mut runner = Runner::new(&arena);
    let (actions, res) = runner_interpretator(&mut runner, call(BuiltInFunction::Print, vec![Expr::String("salam".to_string(), false)]));
    assert!(res.is_ok());
    assert_eq!(actions.len(), 1);
    assert!(matches!(&actions[0], RunAction::Print(t) if t == "salam"));
}

#[test]
fn the_last_word_prints_and_stops() {
    let arena = Bump::new();
    let mut runner = Runner::new(&arena);
    let program = Program {
        expressions: vec![
            call(BuiltInFunction::LastWord, vec![num(1)]),
            call(BuiltInFunction::Print, vec![num(2)]),
        ],
    };
    let (actions, res) = runner.run(program);
    assert!(res.is_ok());
    assert_eq!(actions.len(), 2);
    assert!(matches!(&actions[0], RunAction::Print(t) if t == "1"));
    assert!(matches!(actions[1], RunAction::Exit));
}

#[test]
fn calling_an_unknown_function_fails() {
    let arena = Bump::new();
    let mut runner = Runner::new(&arena);
    let c = Expr::Call {
        target: None,
        name: "yox".to_string(),
        transpiled_name: None,
        args: vec![],
        returned_type: None,
        is_allocator: false,
    };
    let (actions, res) = runner_interpretator(&mut runner, c);
    assert!(actions.is_empty());
    assert!(matches!(res, Err(RunError::UnknownFunction(n)) if n == "yox"));
}

#[test]
fn a_defined_function_can_be_called() {
    let arena = Bump::new();
    let mut runner = Runner::new(&arena);
    let def = Expr::FunctionDef {
        name: "salamla".to_string(),
        transpiled_name: None,
        params: vec![Parameter { name: "a".to_string(), typ: Type::Integer, is_mutable: false, is_pointer: false }],
        body: vec![call(BuiltInFunction::Print, vec![Expr::String("içəridə".to_string(), false)])],
        return_type: None,
        is_allocator: false,
    };
    let (_, res) = runner_interpretator(&mut runner, def);
    assert!(res.is_ok());
    let c = Expr::Call {
        target: None,
        name: "salamla".to_string(),
        transpiled_name: None,
        args: vec![num(7)],
        returned_type: None,
        is_allocator: false,
    };
    let (actions, res) = runner_interpretator(&mut runner, c);
    assert!(res.is_ok());
    assert_eq!(actions.len(), 1);
    assert!(matches!(&actions[0], RunAction::Print(t) if t == "içəridə"));
}

#[test]
fn a_loop_runs_its_body_for_each_element_and_forgets_its_variable() {
    let arena = Bump::new();
    let mut runner = Runner::new(&arena);
    let lp = Expr::Loop {
        var_name: "i".to_string(),
        iterable: Box::new(Expr::List(vec![num(1), num(2)])),
        body: vec![call(BuiltInFunction::Print, vec![Expr::VariableRef { name: "i".to_string(), transpiled_name: None, symbol: None }])],
    };
    let (actions, res) = runner_interpretator(&mut runner, lp);
    assert!(res.is_ok());
    assert_eq!(actions.len(), 2);
    assert!(matches!(&actions[1], RunAction::Print(t) if t == "2"));
    assert!(!runner.variables.contains_key("i"));
}

#[test]
fn an_empty_program_does_nothing() {
    let arena = Bump::new();
    let mut runner = Runner::new(&arena);
    let (actions, res) = runner.run(Program { expressions: vec![] });
    assert!(actions.is_empty());
    assert!(res.is_ok());
}

#[test]
fn a_sum_that_leaves_the_range_overflows() {
    assert!(matches!(value(call(BuiltInFunction::Sum, vec![num(i64::MAX), num(1), num(-5)])), Err(RunError::Overflow)));
    assert_eq!(number_of(value(call(BuiltInFunction::Sum, vec![]))), 0);
    assert_eq!(number_of(value(call(BuiltInFunction::Min, vec![Expr::List(vec![])]))), i64::MAX);
    assert_eq!(number_of(value(call(BuiltInFunction::Max, vec![Expr::List(vec![num(1), Expr::Bool(true)])]))), 0);
    match value(call(BuiltInFunction::Range, vec![num(5), num(2)])) {
        Ok(Expr::List(items)) => assert!(items.is_empty()),
        other => panic!("not a list: {:?}", other),
    }
}

#[test]
fn a_declared_value_prints_back() {
    let arena = Bump::new();
    let mut runner = Runner::new(&arena);
    let decl = Expr::Decl {
        name: "ad".to_string(),
        transpiled_name: None,
        typ: Some(Type::String),
        is_mutable: false,
        is_primitive: true,
        value: Box::new(Expr::String("Aygün".to_string(), false)),
    };
    let (a1, r1) = runner_interpretator(&mut runner, decl);
    assert!(r1.is_ok() && a1.is_empty());
    let print = call(BuiltInFunction::Print, vec![Expr::VariableRef { name: "ad".to_string(), transpiled_name: None, symbol: None }]);
    let (a2, r2) = runner_interpretator(&mut runner, print);
    assert!(r2.is_ok());
    assert_eq!(a2.len(), 1);
    assert!(matches!(&a2[0], RunAction::Print(t) if t == "Aygün"));
}

#[test]
fn nested_expressions_are_evaluated_inside_out() {
    assert_eq!(number_of(value(bin(num(2), "+", bin(num(3), "*", num(4))))), 14);
    assert!(matches!(value(bin(num(1), "+", bin(num(1), "/", num(0)))), Err(RunError::DivisionByZero)));
    let list = value(Expr::List(vec![bin(num(1), "+", num(1)), call(BuiltInFunction::Mod, vec![num(-5)])]));
    match list {
        Ok(Expr::List(items)) => {
            assert_eq!(items.len(), 2);
            assert!(matches!(items[0], Expr::Number(2)));
            assert!(matches!(items[1], Expr::Number(5)));
        },
        other => panic!("not a list: {:?}", other),
    }
    assert_eq!(number_of(value(call(BuiltInFunction::Max, vec![call(BuiltInFunction::Range, vec![num(1), bin(num(2), "*", num(3))])]))), 5);
}

#[test]
fn printing_a_computed_value_prints_its_text() {
    let arena = Bump::new();
    let mut runner = Runner::new(&arena);
    let (actions, res) = runner_interpretator(&mut runner, call(BuiltInFunction::Print, vec![bin(num(6), "*", num(7))]));
    assert!(res.is_ok());
    assert_eq!(actions.len(), 1);
    assert!(matches!(&actions[0], RunAction::Print(t) if t == "42"));
    let (actions, res) = runner_interpretator(&mut runner, call(BuiltInFunction::Print, vec![bin(num(1), "/", num(0))]));
    assert!(matches!(res, Err(RunError::DivisionByZero)));
    assert!(actions.is_empty());
}

fn say(text: &str) -> Expr {
    call(BuiltInFunction::Print, vec![Expr::String(text.to_string(), false)])
}

fn printed(actions: &[RunAction]) -> Vec<String> {
    actions
        .iter()
        .map(|a| match a {
            RunAction::Print(t) => t.clone(),
            _ => "<exit>".to_string(),
        })
        .collect()
}

#[test]
fn a_false_condition_runs_the_last_branch() {
    let arena = Bump::new();
    let mut runner = Runner::new(&arena);
    let cond = Expr::If {
        condition: Box::new(Expr::Bool(false)),
        then_branch: vec![say("bəli")],
        else_branch: vec![Expr::Else { then_branch: vec![say("xeyr")] }],
    };
    let (actions, res) = runner_interpretator(&mut runner, cond);
    assert!(res.is_ok());
    assert_eq!(printed(&actions), vec!["xeyr".to_string()]);
}

#[test]
fn the_first_true_further_condition_runs_its_block() {
    let arena = Bump::new();
    let mut runner = Runner::new(&arena);
    let cond = Expr::If {
        condition: Box::new(bin(num(1), "==", num(2))),
        then_branch: vec![say("a")],
        else_branch: vec![
            Expr::ElseIf { condition: Box::new(Expr::Bool(false)), then_branch: vec![say("b")] },
            Expr::ElseIf { condition: Box::new(bin(num(2), "==", num(2))), then_branch: vec![say("c"), say("d")] },
            Expr::Else { then_branch: vec![say("e")] },
        ],
    };
    let (actions, res) = runner_interpretator(&mut runner, cond);
    assert!(res.is_ok());
    assert_eq!(printed(&actions), vec!["c".to_string(), "d".to_string()]);
}

#[test]
fn no_branch_runs_when_every_further_condition_is_false() {
    let arena = Bump::new();
    let mut runner = Runner::new(&arena);
    let cond = Expr::If {
        condition: Box::new(Expr::Bool(false)),
        then_branch: vec![say("a")],
        else_branch: vec![Expr::ElseIf { condition: Box::new(Expr::Bool(false)), then_branch: vec![say("b")] }],
    };
    let (actions, res) = runner_interpretator(&mut runner, cond);
    assert!(res.is_ok());
    assert!(actions.is_empty());
}

#[test]
fn minimum_and_maximum_read_the_elements_again() {
    let arena = Bump::new();
    let mut runner = Runner::new(&arena);
    let decl = Expr::Decl {
        name: "x".to_string(),
        transpiled_name: None,
        typ: None,
        is_mutable: false,
        is_primitive: true,
        value: Box::new(num(-4)),
    };
    let (_, res) = runner_interpretator(&mut runner, decl);
    assert!(res.is_ok());
    let x = Expr::VariableRef { name: "x".to_string(), transpiled_name: None, symbol: None };
    let list = Expr::List(vec![num(7), x, num(3)]);
    assert_eq!(number_of(eval(&call(BuiltInFunction::Min, vec![clone_expr(&list)]), &runner)), -4);
    assert_eq!(number_of(eval(&call(BuiltInFunction::Max, vec![list]), &runner)), 7);
    assert_eq!(number_of(value(call(BuiltInFunction::Max, vec![Expr::List(vec![])]))), i64::MIN);
    assert_eq!(number_of(value(call(BuiltInFunction::Min, vec![num(5)]))), 0);
}

#[test]
fn a_difference_of_two_times_is_a_number() {
    let t = call(BuiltInFunction::Timer, vec![]);
    assert!(matches!(value(bin(clone_expr(&t), "-", t)), Ok(Expr::Number(_))));
}

#[test]
fn evaluating_a_value_again_gives_it_back() {
    let first = value(bin(num(2), "+", num(3))).unwrap();
    assert!(matches!(first, Expr::Number(5)));
    let again = value(first);
    assert_eq!(number_of(again), 5);
    let text = value(Expr::VariableRef { name: "ad".to_string(), transpiled_name: None, symbol: None }).unwrap();
    assert!(matches!(value(text), Ok(Expr::DynamicString(s)) if s == "ad"));
}

fn print_var(name: &str) -> Expr {
    call(BuiltInFunction::Print, vec![Expr::VariableRef { name: name.to_string(), transpiled_name: None, symbol: None }])
}

#[test]
fn a_break_ends_the_loop_once_the_next_element_is_bound() {
    let arena = Bump::new();
    let mut runner = Runner::new(&arena);
    let lp = Expr::Loop {
        var_name: "i".to_string(),
        iterable: Box::new(Expr::List(vec![num(1), num(2), num(3)])),
        body: vec![print_var("i"), Expr::Break, print_var("i")],
    };
    let (actions, res) = runner_interpretator(&mut runner, lp);
    assert!(res.is_ok());
    assert_eq!(actions.len(), 1);
    assert!(matches!(&actions[0], RunAction::Print(t) if t == "1"));
    assert!(!runner.variables.contains_key("i"));
}

#[test]
fn a_continue_has_the_next_round_skip_the_block() {
    let arena = Bump::new();
    let mut runner = Runner::new(&arena);
    let lp = Expr::Loop {
        var_name: "i".to_string(),
        iterable: Box::new(Expr::List(vec![num(1), num(2), num(3), num(4)])),
        body: vec![print_var("i"), Expr::Continue, print_var("i")],
    };
    let (actions, res) = runner_interpretator(&mut runner, lp);
    assert!(res.is_ok());
    assert_eq!(actions.len(), 2);
    assert!(matches!(&actions[0], RunAction::Print(t) if t == "1"));
    assert!(matches!(&actions[1], RunAction::Print(t) if t == "3"));
    assert!(!runner.variables.contains_key("i"));
}

#[test]
fn an_evaluated_value_evaluates_to_itself() {
    let first = value(bin(num(2), "*", bin(num(3), "+", num(4)))).unwrap();
    assert!(matches!(first, Expr::Number(14)));
    let again = value(clone_expr(&first));
    assert_eq!(number_of(again), 14);
    let text = value(call(BuiltInFunction::StrUpper, vec![Expr::String("ab".to_string(), false)])).unwrap();
    assert!(matches!(value(clone_expr(&text)), Ok(Expr::DynamicString(s)) if s == "AB"));
    assert!(matches!(text, Expr::DynamicString(ref s) if s == "AB"));
}
