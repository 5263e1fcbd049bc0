use azlang::parser::ast::{EnumDecl, Expr, Symbol, Type};
use azlang::translations::validator_messages::ValidatorError;
use azlang::validator::helpers::transpile_az_chars;
use azlang::validator::validate::{validate_expr, validate_exprs};
use azlang::validator::{FunctionInfo, ValidatorContext};

fn symbol(typ: Type, is_mutable: bool) -> Symbol {
    Symbol { typ, is_mutable, is_pointer: false, is_used: false, transpiled_name: None }
}

fn decl(name: &str, value: Expr) -> Expr {
    Expr::Decl {
        name: name.to_string(),
        transpiled_name: None,
        typ: None,
        is_mutable: false,
        is_primitive: false,
        value: Box::new(value),
    }
}

fn var(name: &str) -> Expr {
    Expr::VariableRef { name: name.to_string(), transpiled_name: None, symbol: None }
}

#[test]
fn folding_replaces_azerbaijani_letters() {
    assert_eq!(transpile_az_chars("şəhər"), "seher");
    assert_eq!(transpile_az_chars("ÇİÖÜĞıŞƏ"), "CIOUGiSE");
    assert_eq!(transpile_az_chars("plain_name1"), "plain_name1");
    assert_eq!(transpile_az_chars(""), "");
}

#[test]
fn a_fresh_context_knows_no_variable() {
    let ctx = ValidatorContext::new();
    assert!(ctx.lookup_variable("x").is_none());
}

#[test]
fn declared_variables_are_found_until_their_scope_closes() {
    let mut ctx = ValidatorContext::new();
    ctx.declare_variable("a".to_string(), symbol(Type::Integer, false));
    ctx.push_scope();
    ctx.declare_variable("b".to_string(), symbol(Type::Bool, true));
    assert!(ctx.lookup_variable("a").is_some());
    let b = ctx.lookup_variable("b").unwrap();
    assert!(b.is_mutable);
    assert!(matches!(b.typ, Type::Bool));
    ctx.pop_scope();
    assert!(ctx.lookup_variable("b").is_none());
    assert!(ctx.lookup_variable("a").is_some());
}

#[test]
fn an_inner_declaration_shadows_an_outer_one() {
    let mut ctx = ValidatorContext::new();
    ctx.declare_variable("x".to_string(), symbol(Type::Integer, false));
    ctx.push_scope();
    ctx.declare_variable("x".to_string(), symbol(Type::Bool, false));
    assert!(matches!(ctx.lookup_variable("x").unwrap().typ, Type::Bool));
    ctx.pop_scope();
    assert!(matches!(ctx.lookup_variable("x").unwrap().typ, Type::Integer));
}

#[test]
fn a_literal_is_accepted_unchanged() {
    let mut ctx = ValidatorContext::new();
    let mut e = Expr::Number(42);
    assert!(validate_expr(&mut e, &mut ctx).is_ok());
    assert!(matches!(e, Expr::Number(42)));
}

#[test]
fn a_declaration_records_the_name_and_its_folded_form() {
    let mut ctx = ValidatorContext::new();
    let mut e = decl("şəhər", Expr::Number(1));
    assert!(validate_expr(&mut e, &mut ctx).is_ok());
    match &e {
        Expr::Decl { transpiled_name, .. } => assert_eq!(transpiled_name.as_deref(), Some("seher")),
        other => panic!("unexpected {:?}", other),
    }
    assert!(ctx.lookup_variable("şəhər").is_some());
}

#[test]
fn declaring_a_name_twice_is_refused() {
    let mut ctx = ValidatorContext::new();
    let mut program = vec![decl("x", Expr::Number(1)), decl("x", Expr::Number(2))];
    match validate_exprs(&mut program, &mut ctx) {
        Err(ValidatorError::AlreadyDecl(name)) => assert_eq!(name, "x"),
        other => panic!("unexpected {:?}", other),
    }
}

#[test]
fn an_unknown_variable_is_refused() {
    let mut ctx = ValidatorContext::new();
    let mut e = var("y");
    match validate_expr(&mut e, &mut ctx) {
        Err(ValidatorError::UndefinedVariable(name)) => assert_eq!(name, "y"),
        other => panic!("unexpected {:?}", other),
    }
}

#[test]
fn a_known_variable_gets_its_symbol() {
    let mut ctx = ValidatorContext::new();
    let mut program = vec![decl("x", Expr::Number(1)), var("x")];
    assert!(validate_exprs(&mut program, &mut ctx).is_ok());
    match &program[1] {
        Expr::VariableRef { symbol, .. } => assert!(symbol.is_some()),
        other => panic!("unexpected {:?}", other),
    }
}

#[test]
fn an_enum_declared_twice_is_refused() {
    let mut ctx = ValidatorContext::new();
    let e1 = Expr::EnumDecl(EnumDecl { name: "Reng".to_string(), variants: vec!["Qirmizi".to_string()] });
    let e2 = Expr::EnumDecl(EnumDecl { name: "Reng".to_string(), variants: vec!["Yasil".to_string()] });
    let mut program = vec![e1, e2];
    match validate_exprs(&mut program, &mut ctx) {
        Err(ValidatorError::DuplicateEnum(name)) => assert_eq!(name, "Reng"),
        other => panic!("unexpected {:?}", other),
    }
}

#[test]
fn enum_variants_become_known() {
    let mut ctx = ValidatorContext::new();
    let mut e = Expr::EnumDecl(EnumDecl {
        name: "Reng".to_string(),
        variants: vec!["Qirmizi".to_string(), "Yasil".to_string()],
    });
    assert!(validate_expr(&mut e, &mut ctx).is_ok());
    assert!(ctx.is_enum_variant("Yasil"));
    assert!(!ctx.is_enum_variant("Goy"));
}

#[test]
fn an_unknown_function_is_refused() {
    let mut ctx = ValidatorContext::new();
    let mut e = Expr::Call {
        target: None,
        name: "f".to_string(),
        transpiled_name: None,
        args: vec![],
        returned_type: None,
        is_allocator: false,
    };
    match validate_expr(&mut e, &mut ctx) {
        Err(ValidatorError::FunctionNotFound(name)) => assert_eq!(name, "f"),
        other => panic!("unexpected {:?}", other),
    }
}

#[test]
fn an_empty_program_is_accepted() {
    let mut ctx = ValidatorContext::new();
    let mut program: Vec<Expr> = vec![];
    assert!(validate_exprs(&mut program, &mut ctx).is_ok());
}

#[test]
fn a_condition_must_be_a_truth_value() {
    let mut ctx = ValidatorContext::new();
    let mut e = Expr::If { condition: Box::new(Expr::Number(1)), then_branch: vec![], else_branch: vec![] };
    match validate_expr(&mut e, &mut ctx) {
        Err(ValidatorError::IfConditionTypeMismatch(t)) => assert!(matches!(t, Type::Natural)),
        other => panic!("unexpected {:?}", other),
    }
    let mut ok = Expr::If { condition: Box::new(Expr::Bool(true)), then_branch: vec![], else_branch: vec![] };
    assert!(validate_expr(&mut ok, &mut ctx).is_ok());
    let mut elif = Expr::ElseIf { condition: Box::new(Expr::String("a".to_string(), false)), then_branch: vec![] };
    assert!(matches!(validate_expr(&mut elif, &mut ctx), Err(ValidatorError::IfConditionTypeMismatch(Type::String))));
}

#[test]
fn a_loop_must_run_over_a_list() {
    let mut ctx = ValidatorContext::new();
    let mut e = Expr::Loop { var_name: "i".to_string(), iterable: Box::new(Expr::Number(3)), body: vec![] };
    assert!(matches!(validate_expr(&mut e, &mut ctx), Err(ValidatorError::LoopRequiresList)));
    let mut ok = Expr::Loop {
        var_name: "i".to_string(),
        iterable: Box::new(Expr::List(vec![Expr::Number(1), Expr::Number(2)])),
        body: vec![var("i")],
    };
    assert!(validate_expr(&mut ok, &mut ctx).is_ok());
}

#[test]
fn an_annotation_that_differs_from_the_value_is_refused() {
    let mut ctx = ValidatorContext::new();
    let mut e = Expr::Decl {
        name: "x".to_string(),
        transpiled_name: None,
        typ: Some(Type::String),
        is_mutable: false,
        is_primitive: false,
        value: Box::new(Expr::Bool(true)),
    };
    match validate_expr(&mut e, &mut ctx) {
        Err(ValidatorError::DeclTypeMismatch { name, expected, found }) => {
            assert_eq!(name, "x");
            assert!(matches!(expected, Type::String));
            assert!(matches!(found, Type::Bool));
        },
        other => panic!("unexpected {:?}", other),
    }
    assert!(ctx.lookup_variable("x").is_none());
    assert!(matches!(e, Expr::Decl { transpiled_name: None, .. }));
}

#[test]
fn a_declared_literal_records_its_type() {
    let mut ctx = ValidatorContext::new();
    let mut e = decl("y", Expr::Bool(false));
    assert!(validate_expr(&mut e, &mut ctx).is_ok());
    assert!(matches!(&e, Expr::Decl { typ: Some(Type::Bool), .. }));
    assert!(matches!(ctx.lookup_variable("y"), Some(s) if matches!(s.typ, Type::Bool)));
}

#[test]
fn an_unannotated_declaration_is_entered_with_its_inferred_type() {
    let mut ctx = ValidatorContext::new();
    let mut e = decl("x", Expr::Number(1));
    assert!(validate_expr(&mut e, &mut ctx).is_ok());
    match &e {
        Expr::Decl { typ: Some(t), value, .. } => {
            assert!(matches!(t, Type::Natural));
            assert!(matches!(**value, Expr::Number(1)));
        },
        other => panic!("unexpected {:?}", other),
    }
    let s = ctx.lookup_variable("x").unwrap();
    assert!(matches!(s.typ, Type::Natural));
    assert_eq!(s.transpiled_name.as_deref(), Some("x"));
}

#[test]
fn a_declaration_whose_value_fails_its_check_gives_that_error() {
    let mut ctx = ValidatorContext::new();
    let mut e = decl("x", var("y"));
    match validate_expr(&mut e, &mut ctx) {
        Err(ValidatorError::UndefinedVariable(name)) => assert_eq!(name, "y"),
        other => panic!("unexpected {:?}", other),
    }
    assert!(ctx.lookup_variable("x").is_none());
}

#[test]
fn a_call_of_a_known_function_with_checked_arguments_succeeds() {
    let mut ctx = ValidatorContext::new();
    ctx.declare_function(FunctionInfo {
        name: "topla".to_string(),
        return_type: Some(Type::Integer),
        parameters: vec![azlang::parser::ast::Parameter {
            name: "a".to_string(),
            typ: Type::Integer,
            is_mutable: false,
            is_pointer: false,
        }],
        is_allocator_used: false,
    });
    let mut e = Expr::Call {
        target: None,
        name: "topla".to_string(),
        transpiled_name: None,
        args: vec![Expr::Number(2)],
        returned_type: None,
        is_allocator: false,
    };
    assert!(validate_expr(&mut e, &mut ctx).is_ok());
    match &e {
        Expr::Call { transpiled_name, returned_type, .. } => {
            assert_eq!(transpiled_name.as_deref(), Some("topla"));
            assert!(matches!(returned_type, Some(Type::Integer)));
        },
        other => panic!("unexpected {:?}", other),
    }
    let mut bad = Expr::Call {
        target: None,
        name: "topla".to_string(),
        transpiled_name: None,
        args: vec![var("yox")],
        returned_type: None,
        is_allocator: false,
    };
    match validate_expr(&mut bad, &mut ctx) {
        Err(ValidatorError::UndefinedVariable(name)) => assert_eq!(name, "yox"),
        other => panic!("unexpected {:?}", other),
    }
}

#[test]
fn a_function_definition_is_checked_in_its_own_scope() {
    let mut ctx = ValidatorContext::new();
    let mut f = Expr::FunctionDef {
        name: "f".to_string(),
        transpiled_name: None,
        params: vec![azlang::parser::ast::Parameter {
            name: "a".to_string(),
            typ: Type::Integer,
            is_mutable: true,
            is_pointer: false,
        }],
        body: vec![decl("b", var("a"))],
        return_type: None,
        is_allocator: false,
    };
    assert!(validate_expr(&mut f, &mut ctx).is_ok());
    assert!(ctx.functions.contains_key("f"));
    assert!(ctx.lookup_variable("a").is_none());
    assert!(ctx.lookup_variable("b").is_none());
    match &f {
        Expr::FunctionDef { params, .. } => assert!(params[0].is_pointer),
        other => panic!("unexpected {:?}", other),
    }
    let mut g = Expr::FunctionDef {
        name: "g".to_string(),
        transpiled_name: None,
        params: vec![],
        body: vec![],
        return_type: Some(Type::User("Yox".to_string(), String::new())),
        is_allocator: false,
    };
    match validate_expr(&mut g, &mut ctx) {
        Err(ValidatorError::UnknownType(name)) => assert_eq!(name, "Yox"),
        other => panic!("unexpected {:?}", other),
    }
}

#[test]
fn blocks_and_operands_give_the_first_error_met() {
    let mut ctx = ValidatorContext::new();
    let mut e = Expr::If {
        condition: Box::new(Expr::Bool(true)),
        then_branch: vec![Expr::Number(1)],
        else_branch: vec![var("a"), var("b")],
    };
    match validate_expr(&mut e, &mut ctx) {
        Err(ValidatorError::UndefinedVariable(name)) => assert_eq!(name, "a"),
        other => panic!("unexpected {:?}", other),
    }
    let mut op = Expr::BinaryOp { left: Box::new(var("p")), op: "+".to_string(), right: Box::new(var("q")) };
    match validate_expr(&mut op, &mut ctx) {
        Err(ValidatorError::UndefinedVariable(name)) => assert_eq!(name, "p"),
        other => panic!("unexpected {:?}", other),
    }
    let mut ret = Expr::Return(Box::new(var("r")));
    match validate_expr(&mut ret, &mut ctx) {
        Err(ValidatorError::UndefinedVariable(name)) => assert_eq!(name, "r"),
        other => panic!("unexpected {:?}", other),
    }
    let mut els = Expr::Else { then_branch: vec![Expr::Number(1), Expr::Bool(false)] };
    assert!(validate_expr(&mut els, &mut ctx).is_ok());
    let mut lp = Expr::Loop {
        var_name: "i".to_string(),
        iterable: Box::new(Expr::List(vec![Expr::Number(1)])),
        body: vec![var("j")],
    };
    match validate_expr(&mut lp, &mut ctx) {
        Err(ValidatorError::UndefinedVariable(name)) => assert_eq!(name, "j"),
        other => panic!("unexpected {:?}", other),
    }
}

#[test]
fn struct_fields_and_built_in_arguments_are_checked_in_order() {
    let mut ctx = ValidatorContext::new();
    let mut def = Expr::StructDef {
        name: "Nokte".to_string(),
        transpiled_name: None,
        fields: vec![("x".to_string(), Type::Integer, None)],
        methods: vec![],
    };
    assert!(validate_expr(&mut def, &mut ctx).is_ok());
    let mut init = Expr::StructInit {
        name: "Nokte".to_string(),
        transpiled_name: None,
        args: vec![("x".to_string(), var("u")), ("y".to_string(), var("v"))],
    };
    match validate_expr(&mut init, &mut ctx) {
        Err(ValidatorError::UndefinedVariable(name)) => assert_eq!(name, "u"),
        other => panic!("unexpected {:?}", other),
    }
    let mut call = Expr::BuiltInCall {
        function: azlang::parser::ast::BuiltInFunction::Range,
        args: vec![Expr::Number(1), var("w")],
        return_type: Type::Any,
    };
    match validate_expr(&mut call, &mut ctx) {
        Err(ValidatorError::UndefinedVariable(name)) => assert_eq!(name, "w"),
        other => panic!("unexpected {:?}", other),
    }
}

#[test]
fn match_arms_and_template_parts_are_checked_in_order() {
    let mut ctx = ValidatorContext::new();
    let mut m = Expr::Match {
        target: Box::new(Expr::Number(1)),
        arms: vec![(Expr::Number(1), vec![Expr::Number(2)]), (Expr::Number(2), vec![var("z"), var("zz")])],
    };
    match validate_expr(&mut m, &mut ctx) {
        Err(ValidatorError::UndefinedVariable(name)) => assert_eq!(name, "z"),
        other => panic!("unexpected {:?}", other),
    }
    let mut t = Expr::TemplateString(vec![
        azlang::parser::ast::TemplateChunk::Literal("salam ".to_string()),
        azlang::parser::ast::TemplateChunk::Expr(Box::new(var("ad"))),
    ]);
    match validate_expr(&mut t, &mut ctx) {
        Err(ValidatorError::UndefinedVariable(name)) => assert_eq!(name, "ad"),
        other => panic!("unexpected {:?}", other),
    }
    let mut ok = Expr::TemplateString(vec![azlang::parser::ast::TemplateChunk::Literal("salam".to_string())]);
    assert!(validate_expr(&mut ok, &mut ctx).is_ok());
}

#[test]
fn an_indexing_checks_its_target_then_its_index() {
    let mut ctx = ValidatorContext::new();
    let mut e = Expr::Index { target: Box::new(var("l")), index: Box::new(var("k")), target_type: Type::Any };
    match validate_expr(&mut e, &mut ctx) {
        Err(ValidatorError::UndefinedVariable(name)) => assert_eq!(name, "l"),
        other => panic!("unexpected {:?}", other),
    }
    let mut ok = Expr::Index {
        target: Box::new(Expr::List(vec![Expr::Number(5)])),
        index: Box::new(Expr::Number(0)),
        target_type: Type::Any,
    };
    assert!(validate_expr(&mut ok, &mut ctx).is_ok());
    assert!(matches!(ok, Expr::Index { target_type: Type::Any, .. }));
}
