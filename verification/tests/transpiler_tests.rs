use azlang::lexer::FloatLit;
use azlang::parser::ast::BuiltInFunction;
use azlang::transpiler::readiness::{has_expr_type, is_ready};
use azlang::parser::ast::{EnumDecl, Expr, MethodType, Parameter, Program, Symbol, TemplateChunk, Type};
use azlang::transpiler::helpers::transpile_function_def;
use azlang::transpiler::struct_def::transpile_struct_def;
use azlang::transpiler::union_def::transpile_union_def;
use azlang::transpiler::builtinfunctions::min_max::{inner_typer, transpile_max, transpile_min};
use azlang::transpiler::builtinfunctions::print::transpile_print;
use azlang::transpiler::builtinfunctions::sum::transpile_sum;
use azlang::transpiler::codegen::prelude::generate_imports;
use azlang::transpiler::codegen::utils_fn::{generate_util_functions, SUM_FN};
use azlang::transpiler::helpers::{get_format_str_from_type, map_type};
use azlang::transpiler::transpile::transpile_expr;
use azlang::transpiler::TranspileContext;

fn code(e: Expr) -> String {
    let mut ctx = TranspileContext::new();
    transpile_expr(&e, &mut ctx)
}

fn num(n: i64) -> Expr {
    Expr::Number(n)
}

fn bin(l: Expr, op: &str, r: Expr) -> Expr {
    Expr::BinaryOp { left: Box::new(l), op: op.to_string(), right: Box::new(r) }
}

#[test]
fn literals_are_written_as_zig_literals() {
    assert_eq!(code(num(42)), "42");
    assert_eq!(code(num(-7)), "-7");
    assert_eq!(code(Expr::Bool(true)), "true");
    assert_eq!(code(Expr::Bool(false)), "false");
    assert_eq!(code(Expr::Break), "break");
    assert_eq!(code(Expr::Continue), "continue");
}

#[test]
fn decimals_are_written_in_plain_notation() {
    assert_eq!(code(Expr::Float(FloatLit { mantissa: 314, scale: 2 })), "3.14");
    assert_eq!(code(Expr::Float(FloatLit { mantissa: 25, scale: 1 })), "2.5");
    assert_eq!(code(Expr::Float(FloatLit { mantissa: 5, scale: 0 })), "5");
    assert_eq!(code(Expr::Float(FloatLit { mantissa: -5, scale: 3 })), "-0.005");
}

#[test]
fn strings_are_quoted_and_escaped() {
    assert_eq!(code(Expr::String("salam".to_string(), false)), "\"salam\"");
    assert_eq!(code(Expr::String("a\"b".to_string(), false)), "\"a\\\"b\"");
    assert_eq!(code(Expr::String("x".to_string(), true)), "try allocator.dupe(u8, \"x\")");
}

#[test]
fn binary_operations_read_the_value_of_each_operand() {
    assert_eq!(code(bin(num(1), "+", num(2))), "(1.deyer + 2.deyer)");
    assert_eq!(code(bin(Expr::Bool(true), "&&", Expr::Bool(false))), "(true.deyer and false.deyer)");
    assert_eq!(code(bin(Expr::Bool(true), "||", Expr::Bool(false))), "(true.deyer or false.deyer)");
    assert_eq!(code(bin(num(6), "/", num(3))), "(@divTrunc(6.deyer,3.deyer))");
    assert_eq!(code(bin(num(7), "%", num(3))), "(@mod(7.deyer,3.deyer))");
}

#[test]
fn lists_and_returns() {
    assert_eq!(code(Expr::List(vec![num(1), num(2)])), "[1, 2]");
    assert_eq!(code(Expr::List(vec![])), "[]");
    assert_eq!(code(Expr::Return(Box::new(num(7)))), "return 7");
}

#[test]
fn variables_use_their_generated_names() {
    let plain = Expr::VariableRef { name: "şəhər".to_string(), transpiled_name: Some("seher".to_string()), symbol: None };
    assert_eq!(code(plain), "şəhər");
    let sym = Symbol { typ: Type::Integer, is_mutable: true, is_pointer: true, is_used: true, transpiled_name: None };
    let pointer = Expr::VariableRef { name: "x".to_string(), transpiled_name: Some("x".to_string()), symbol: Some(sym) };
    assert_eq!(code(pointer), "x.*");
}

#[test]
fn template_parts_are_put_on_lines() {
    let t = Expr::TemplateString(vec![
        TemplateChunk::Literal("a".to_string()),
        TemplateChunk::Expr(Box::new(num(1))),
    ]);
    assert_eq!(code(t), "a\n1");
}

#[test]
fn an_enum_declaration_and_its_variants() {
    let mut ctx = TranspileContext::new();
    let decl = Expr::EnumDecl(EnumDecl {
        name: "Reng".to_string(),
        variants: vec!["Qirmizi".to_string(), "Yasil".to_string()],
    });
    let text = transpile_expr(&decl, &mut ctx);
    assert_eq!(text, "const Reng = enum {\n    Qirmizi,\n    Yasil,\n};");
    let v = Expr::VariableRef { name: "Qirmizi".to_string(), transpiled_name: None, symbol: None };
    assert_eq!(transpile_expr(&v, &mut ctx), ".Qirmizi");
}

#[test]
fn types_map_to_zig_types() {
    assert_eq!(map_type(&Type::Integer, false), "azlangEded");
    assert_eq!(map_type(&Type::String, false), "azlangYazi");
    assert_eq!(map_type(&Type::BigInteger, true), "const i128");
    assert_eq!(map_type(&Type::BigInteger, false), "i128");
    assert_eq!(map_type(&Type::Array(Box::new(Type::Bool)), false), "bool");
    assert_eq!(map_type(&Type::User("Nöqtə".to_string(), "Noqte".to_string()), false), "Noqte");
    assert_eq!(map_type(&Type::Allocator, false), "std.mem.Allocator");
}

#[test]
fn print_formats_follow_the_type() {
    assert_eq!(get_format_str_from_type(&Type::String, false), "{s}");
    assert_eq!(get_format_str_from_type(&Type::String, true), "{!s}");
    assert_eq!(get_format_str_from_type(&Type::Integer, false), "{}");
    assert_eq!(get_format_str_from_type(&Type::Char, false), "{c}");
    assert_eq!(get_format_str_from_type(&Type::Float, true), "{!d}");
    assert_eq!(get_format_str_from_type(&Type::Void, false), "");
    assert_eq!(get_format_str_from_type(&Type::Array(Box::new(Type::Integer)), false), "{any}");
}

#[test]
fn list_element_types() {
    assert_eq!(inner_typer(Type::Integer), "usize");
    assert_eq!(inner_typer(Type::Array(Box::new(Type::LowInteger))), "u8");
    assert_eq!(inner_typer(Type::BigInteger), "i128");
    assert_eq!(inner_typer(Type::Bool), "/* unsupported list element type */");
}

#[test]
fn an_import_is_given_back_only_the_first_time() {
    let mut ctx = TranspileContext::new();
    assert_eq!(ctx.add_import("const m = @import(\"m\");").as_deref(), Some("const m = @import(\"m\");"));
    assert_eq!(ctx.add_import("const m = @import(\"m\");"), None);
    assert_eq!(ctx.imports.len(), 1);
    assert!(ctx.has_import("const m = @import(\"m\");"));
}

#[test]
fn the_standard_library_heads_the_imports_unless_asked_for() {
    let mut ctx = TranspileContext::new();
    assert_eq!(generate_imports(&ctx), "const std = @import(\"std\");\n");
    let _ = ctx.add_import("const m = @import(\"m\");");
    assert_eq!(generate_imports(&ctx), "const std = @import(\"std\");\nconst m = @import(\"m\");\n");
    // a standard-library line asked for explicitly is neither added in front
    // nor written among the others
    let _ = ctx.add_import("const std = @import(\"std\");");
    assert_eq!(generate_imports(&ctx), "const m = @import(\"m\");\n");
}

#[test]
fn helpers_are_emitted_only_when_used() {
    let mut ctx = TranspileContext::new();
    assert_eq!(generate_util_functions(&ctx), "");
    ctx.used_sum_fn = true;
    assert_eq!(generate_util_functions(&ctx), SUM_FN);
}

#[test]
fn an_empty_program_is_an_empty_main() {
    let mut ctx = TranspileContext::new();
    let program = Program { expressions: vec![] };
    assert_eq!(
        ctx.transpile(&program),
        "const std = @import(\"std\");\n\n\n\n\npub fn main() !void {\n}\n"
    );
}

#[test]
fn declarations_name_their_zig_type() {
    let d = Expr::Decl {
        name: "sayı".to_string(),
        transpiled_name: Some("sayi".to_string()),
        typ: Some(Type::Integer),
        is_mutable: false,
        is_primitive: true,
        value: Box::new(num(5)),
    };
    assert_eq!(code(d), "const sayi: azlangEded = 5");
    let m = Expr::Decl {
        name: "x".to_string(),
        transpiled_name: Some("x".to_string()),
        typ: None,
        is_mutable: true,
        is_primitive: true,
        value: Box::new(bin(num(1), "+", num(2))),
    };
    assert_eq!(code(m), "var x: any = (1.deyer + 2.deyer)");
    let t = Expr::Decl {
        name: "ad".to_string(),
        transpiled_name: Some("ad".to_string()),
        typ: Some(Type::String),
        is_mutable: false,
        is_primitive: true,
        value: Box::new(Expr::String("Əli".to_string(), false)),
    };
    assert_eq!(code(t), "const ad: azlangYazi = \"\\u{18f}li\"");
}

#[test]
fn readiness_follows_what_the_validator_filled_in() {
    assert!(is_ready(&num(1)));
    assert!(!is_ready(&Expr::Char('a')));
    let unnamed = Expr::Decl {
        name: "x".to_string(),
        transpiled_name: None,
        typ: None,
        is_mutable: false,
        is_primitive: true,
        value: Box::new(num(1)),
    };
    assert!(!is_ready(&unnamed));
    let named = Expr::Decl {
        name: "x".to_string(),
        transpiled_name: Some("x".to_string()),
        typ: None,
        is_mutable: false,
        is_primitive: true,
        value: Box::new(num(1)),
    };
    assert!(is_ready(&named));
    let len = Expr::BuiltInCall { function: BuiltInFunction::Len, args: vec![num(1)], return_type: Type::Integer };
    assert!(!is_ready(&len));
    let print_nothing = Expr::BuiltInCall { function: BuiltInFunction::Print, args: vec![], return_type: Type::Void };
    assert!(!is_ready(&print_nothing));
    assert!(is_ready(&Expr::List(vec![num(1), bin(num(2), "+", num(3))])));
    assert!(!is_ready(&Expr::List(vec![num(1), Expr::Char('c')])));
    assert!(has_expr_type(&Expr::List(vec![num(1), Expr::Bool(true)])));
    assert!(!has_expr_type(&Expr::List(vec![num(1), Expr::VariableRef { name: "y".to_string(), transpiled_name: None, symbol: None }])));
}

#[test]
fn a_function_definition_has_its_header_and_indented_body() {
    let mut ctx = TranspileContext::new();
    let params = vec![
        Parameter { name: "a".to_string(), typ: Type::Integer, is_mutable: false, is_pointer: false },
        Parameter { name: "b".to_string(), typ: Type::Integer, is_mutable: true, is_pointer: true },
    ];
    let body = vec![Expr::Return(Box::new(num(1)))];
    let text = transpile_function_def(&"f".to_string(), &params, &body, &Some(Type::Integer), None, &mut ctx, false);
    assert_eq!(text, "fn f(a: azlangEded, b: *azlangEded) azlangEded {\n    return 1;\n}");
    let empty = transpile_function_def(&"g".to_string(), &vec![], &vec![], &None, None, &mut ctx, false);
    assert_eq!(empty, "fn g() void {\n\n}");
}

#[test]
fn a_union_lists_its_fields_then_its_methods() {
    let mut ctx = TranspileContext::new();
    let fields = vec![("ad".to_string(), Type::String), ("yas".to_string(), Type::Integer)];
    let methods = vec![MethodType {
        name: "salam".to_string(),
        transpiled_name: None,
        params: vec![Parameter { name: "self".to_string(), typ: Type::Any, is_mutable: false, is_pointer: false }],
        body: vec![],
        return_type: None,
        is_allocator: false,
    }];
    let text = transpile_union_def(&"Şəxs".to_string(), &"Sexs".to_string(), &fields, &methods, &mut ctx);
    assert_eq!(
        text,
        "const Sexs = union(enum) {\n    ad: azlangYazi,\n    yas: azlangEded,\n\npub fn salam(self: @This())  void {\n\n    }\n};"
    );
}

#[test]
fn a_struct_lists_fields_with_defaults() {
    let mut ctx = TranspileContext::new();
    let fields = vec![("x".to_string(), Type::Integer, None), ("y".to_string(), Type::Integer, None)];
    let defaults = vec![Some("0".to_string()), None];
    let text = transpile_struct_def(&"Nöqtə".to_string(), &"Noqte".to_string(), &fields, &defaults, &vec![], &mut ctx);
    assert_eq!(text, "const Noqte = struct {\n    x: azlangEded = 0,\n    y: azlangEded,\n\n};");
}

#[test]
fn list_helpers_are_called_with_slices() {
    let mut ctx = TranspileContext::new();
    let list = Expr::List(vec![num(1), num(2)]);
    assert_eq!(transpile_min(&vec![list], &mut ctx), "min(usize, &[_]usize{ 1, 2 })");
    assert!(ctx.used_min_fn);
    let list = Expr::List(vec![num(3)]);
    assert_eq!(transpile_max(&vec![list], &mut ctx), "max(usize, &[_]usize{ 3 })");
    assert_eq!(transpile_sum(&vec![num(1), num(2)], &mut ctx), "sum(usize, &[_]usize{1, 2})");
    assert!(ctx.used_sum_fn);
}

#[test]
fn printing_a_value_uses_its_format() {
    let mut ctx = TranspileContext::new();
    assert_eq!(transpile_print(&num(5), &mut ctx), "std.debug.print(\"{}\\n\", .{5})");
    assert_eq!(
        transpile_print(&Expr::String("hi".to_string(), false), &mut ctx),
        "std.debug.print(\"{s}\\n\", .{\"hi\"})"
    );
    assert!(ctx.uses_stdout);
    let t = Expr::TemplateString(vec![TemplateChunk::Literal("x = ".to_string()), TemplateChunk::Expr(Box::new(num(1)))]);
    assert_eq!(transpile_print(&t, &mut ctx), "std.debug.print(\"x = {}\\n\", .{ 1 })");
}

#[test]
fn a_program_puts_definitions_first_and_statements_in_main() {
    let mut ctx = TranspileContext::new();
    let decl = Expr::Decl {
        name: "x".to_string(),
        transpiled_name: Some("x".to_string()),
        typ: None,
        is_mutable: false,
        is_primitive: true,
        value: Box::new(num(5)),
    };
    let def = Expr::FunctionDef {
        name: "g".to_string(),
        transpiled_name: Some("g".to_string()),
        params: vec![],
        body: vec![],
        return_type: None,
        is_allocator: false,
    };
    let program = Program { expressions: vec![decl, def] };
    assert_eq!(
        ctx.transpile(&program),
        "const std = @import(\"std\");\n\nfn g() void {\n\n}\n\n\n\n\npub fn main() !void {\n    const x: any = 5;\n}\n"
    );
}

#[test]
fn calls_and_loops() {
    let call = Expr::Call {
        target: None,
        name: "topla".to_string(),
        transpiled_name: Some("topla".to_string()),
        args: vec![num(1), num(2)],
        returned_type: None,
        is_allocator: false,
    };
    let mut ctx = TranspileContext::new();
    assert_eq!(transpile_expr(&call, &mut ctx), "topla(1, 2)");
    assert!(ctx.is_used_allocator);
    let alloc_call = Expr::Call {
        target: None,
        name: "f".to_string(),
        transpiled_name: Some("f".to_string()),
        args: vec![num(1)],
        returned_type: None,
        is_allocator: true,
    };
    assert_eq!(transpile_expr(&alloc_call, &mut ctx), "f(1, allocator)");
    assert!(ctx.needs_allocator);
    let method = Expr::Call {
        target: Some(Box::new(num(4))),
        name: "kvadrat".to_string(),
        transpiled_name: Some("kvadrat".to_string()),
        args: vec![],
        returned_type: None,
        is_allocator: false,
    };
    assert_eq!(transpile_expr(&method, &mut ctx), "azlangEded.Yeni(4).kvadrat()");
    let lp = Expr::Loop {
        var_name: "i".to_string(),
        iterable: Box::new(Expr::List(vec![num(1), num(2)])),
        body: vec![Expr::Break],
    };
    assert_eq!(transpile_expr(&lp, &mut ctx), "for ([1, 2]) |i| {\n    break;\n}");
}

#[test]
fn conditions_and_their_branches() {
    let mut ctx = TranspileContext::new();
    let e = Expr::If {
        condition: Box::new(Expr::Bool(true)),
        then_branch: vec![Expr::Break],
        else_branch: vec![Expr::Else { then_branch: vec![Expr::Continue] }],
    };
    assert_eq!(transpile_expr(&e, &mut ctx), "if (true) {\n    break;\n}\nelse {\n    continue;\n}");
    let ei = Expr::ElseIf { condition: Box::new(Expr::Bool(false)), then_branch: vec![num(1)] };
    assert_eq!(transpile_expr(&ei, &mut ctx), "else if (false) {\n    1;\n}");
    let empty = Expr::If { condition: Box::new(Expr::Bool(false)), then_branch: vec![], else_branch: vec![] };
    assert_eq!(transpile_expr(&empty, &mut ctx), "if (false) {\n    \n}");
}

#[test]
fn struct_values_assignments_and_matches() {
    let mut ctx = TranspileContext::new();
    let init = Expr::StructInit {
        name: "Nöqtə".to_string(),
        transpiled_name: Some("Noqte".to_string()),
        args: vec![("x".to_string(), num(1)), ("y".to_string(), num(2))],
    };
    assert_eq!(transpile_expr(&init, &mut ctx), "Noqte{ .x = 1, .y = 2 };");
    let assign = Expr::Assignment { name: "x".to_string(), value: Box::new(num(3)), symbol: None };
    assert_eq!(transpile_expr(&assign, &mut ctx), "x = 3");
    let text = Expr::Assignment {
        name: "ad".to_string(),
        value: Box::new(Expr::StructInit {
            name: "Yazı".to_string(),
            transpiled_name: Some("azlangYazi".to_string()),
            args: vec![("v".to_string(), Expr::String("a".to_string(), false))],
        }),
        symbol: None,
    };
    assert_eq!(transpile_expr(&text, &mut ctx), "ad = azlangYazi{ .Mut = try allocator.dupe(u8,  \"a\" )  }");
    let m = Expr::Match {
        target: Box::new(Expr::VariableRef { name: "r".to_string(), transpiled_name: None, symbol: None }),
        arms: vec![(Expr::VariableRef { name: "Qirmizi".to_string(), transpiled_name: None, symbol: None }, vec![num(1)])],
    };
    assert_eq!(transpile_expr(&m, &mut ctx), "switch (r) {\n.Qirmizi => 1,\n}");
}

#[test]
fn built_in_calls_wrap_their_argument() {
    let mut ctx = TranspileContext::new();
    let c = |f: BuiltInFunction, args: Vec<Expr>| Expr::BuiltInCall { function: f, args, return_type: Type::Any };
    assert_eq!(transpile_expr(&c(BuiltInFunction::Sqrt, vec![num(16)]), &mut ctx), "@sqrt(16.0)");
    assert_eq!(transpile_expr(&c(BuiltInFunction::Mod, vec![num(-2)]), &mut ctx), "@abs(-2)");
    assert_eq!(
        transpile_expr(&c(BuiltInFunction::Number, vec![Expr::String("5".to_string(), false)]), &mut ctx),
        "try std.fmt.parseInt(isize, \"5\", 10)"
    );
    assert_eq!(transpile_expr(&c(BuiltInFunction::Range, vec![num(0), num(3)]), &mut ctx), "0..3");
    assert_eq!(transpile_expr(&c(BuiltInFunction::Timer, vec![]), &mut ctx), "@intCast(std.time.milliTimestamp())");
    assert_eq!(
        transpile_expr(&c(BuiltInFunction::StrUpper, vec![Expr::String("a".to_string(), false)]), &mut ctx),
        "try str_uppercase(allocator, \"a\",false)"
    );
    assert!(ctx.is_used_allocator);
    assert_eq!(
        transpile_expr(&c(BuiltInFunction::LastWord, vec![num(1)]), &mut ctx),
        "std.debug.print(\"{!}\\n\", .{1});\n    std.process.exit(0)"
    );
}

#[test]
fn returns_negations_and_struct_definitions() {
    let mut ctx = TranspileContext::new();
    let call = Expr::Call {
        target: None,
        name: "f".to_string(),
        transpiled_name: Some("f".to_string()),
        args: vec![],
        returned_type: None,
        is_allocator: false,
    };
    assert_eq!(transpile_expr(&Expr::Return(Box::new(call)), &mut ctx), "return f()");
    let neg = Expr::UnaryOp { op: "-".to_string(), expr: Box::new(num(3)) };
    assert_eq!(transpile_expr(&neg, &mut ctx), "-3");
    let def = Expr::StructDef {
        name: "Nöqtə".to_string(),
        transpiled_name: Some("Noqte".to_string()),
        fields: vec![("x".to_string(), Type::Integer, Some(num(0)))],
        methods: vec![],
    };
    assert_eq!(transpile_expr(&def, &mut ctx), "const Noqte = struct {\n    x: azlangEded = 0,\n\n};");
}

#[test]
fn an_operation_on_a_call_wraps_the_call_code() {
    let call = Expr::Call {
        target: None,
        name: "f".to_string(),
        transpiled_name: Some("f".to_string()),
        args: vec![num(2)],
        returned_type: None,
        is_allocator: false,
    };
    assert_eq!(code(bin(call, "*", num(3))), "(f(2).deyer * 3.deyer)");
    let inner = bin(num(1), "+", num(2));
    assert_eq!(code(bin(inner, "%", num(4))), "(@mod((1.deyer + 2.deyer).deyer,4.deyer))");
}

#[test]
fn text_literals_escape_special_and_non_ascii_characters() {
    assert_eq!(code(Expr::String("a\tə\"\\".to_string(), false)), "\"a\\t\\u{259}\\\"\\\\\"");
    assert_eq!(code(Expr::String("x\n'".to_string(), false)), "\"x\\n\\'\"");
}

#[test]
fn struct_fields_and_match_arms_carry_their_own_code() {
    let mut ctx = TranspileContext::new();
    let init = Expr::StructInit {
        name: "Cüt".to_string(),
        transpiled_name: Some("Cut".to_string()),
        args: vec![("a".to_string(), bin(num(1), "+", num(2))), ("b".to_string(), Expr::Bool(true))],
    };
    assert_eq!(transpile_expr(&init, &mut ctx), "Cut{ .a = (1.deyer + 2.deyer), .b = true };");
    let m = Expr::Match {
        target: Box::new(num(3)),
        arms: vec![(num(1), vec![Expr::Bool(false), num(7)]), (num(2), vec![])],
    };
    assert_eq!(transpile_expr(&m, &mut ctx), "switch (3) {\n.1 => false7,\n.2 => ,\n}");
}
