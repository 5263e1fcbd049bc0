use azlang::lexer::Token;
use azlang::parser::ast::Expr;
use azlang::parser::expressions::get_precedence;
use azlang::parser::Parser;
use azlang::translations::parser_errors::ParserError;

fn ident(s: &str) -> Token {
    Token::Identifier(s.to_string())
}

fn op(s: &str) -> Token {
    Token::Operator(s.to_string())
}

#[test]
fn parse_of_no_tokens_is_an_empty_program() {
    let tokens: Vec<Token> = Vec::new();
    let mut parser = Parser::new(&tokens);
    let program = parser.parse().unwrap();
    assert_eq!(program.expressions.len(), 0);
}

#[test]
fn parse_of_blank_lines_is_an_empty_program() {
    let tokens = vec![Token::Newline, Token::Semicolon, Token::Newline, Token::Eof];
    let mut parser = Parser::new(&tokens);
    let program = parser.parse().unwrap();
    assert_eq!(program.expressions.len(), 0);
}

#[test]
fn parse_of_a_constant_declaration() {
    let tokens = vec![Token::ConstantDecl, ident("x"), op("="), Token::Number(5), Token::Newline];
    let mut parser = Parser::new(&tokens);
    let program = parser.parse().unwrap();
    assert_eq!(program.expressions.len(), 1);
    match &program.expressions[0] {
        Expr::Decl { name, transpiled_name, typ, is_mutable, value, .. } => {
            assert_eq!(name, "x");
            assert!(transpiled_name.is_none());
            assert!(typ.is_none());
            assert!(!is_mutable);
            assert!(matches!(**value, Expr::Number(5)));
        },
        other => panic!("unexpected {:?}", other),
    }
}

#[test]
fn parse_of_a_mutable_declaration_keeps_mutability() {
    let tokens = vec![Token::MutableDecl, ident("sayi"), op("="), Token::True, Token::Newline];
    let mut parser = Parser::new(&tokens);
    let program = parser.parse().unwrap();
    match &program.expressions[0] {
        Expr::Decl { name, is_mutable, value, .. } => {
            assert_eq!(name, "sayi");
            assert!(is_mutable);
            assert!(matches!(**value, Expr::Bool(true)));
        },
        other => panic!("unexpected {:?}", other),
    }
}

#[test]
fn parse_refuses_a_literal_at_top_level() {
    let tokens = vec![Token::Number(1)];
    let mut parser = Parser::new(&tokens);
    assert!(matches!(parser.parse(), Err(ParserError::LiteralAtTopLevel)));
}

#[test]
fn parse_refuses_a_declaration_without_a_name() {
    let tokens = vec![Token::ConstantDecl, Token::Number(1)];
    let mut parser = Parser::new(&tokens);
    assert!(matches!(parser.parse(), Err(ParserError::VariableName(Some(Token::Number(1))))));
}

#[test]
fn parse_refuses_a_declaration_without_equals() {
    let tokens = vec![Token::ConstantDecl, ident("x"), Token::Number(1)];
    let mut parser = Parser::new(&tokens);
    assert!(matches!(parser.parse(), Err(ParserError::OperatorError('=', Some(Token::Number(1))))));
}

#[test]
fn precedence_of_operators() {
    assert_eq!(get_precedence("="), 1);
    assert_eq!(get_precedence("və"), 2);
    assert_eq!(get_precedence("vəya"), 2);
    assert_eq!(get_precedence("||"), 0);
    assert_eq!(get_precedence("&&"), 0);
    assert_eq!(get_precedence("%"), 5);
    assert_eq!(get_precedence("=="), 3);
    assert_eq!(get_precedence("<"), 3);
    assert_eq!(get_precedence("+"), 4);
    assert_eq!(get_precedence("-"), 4);
    assert_eq!(get_precedence("*"), 5);
    assert_eq!(get_precedence("/"), 5);
    assert_eq!(get_precedence("?"), 0);
}

#[test]
fn op_expr_precedence_matches() {
    assert_eq!(azlang::parser::op_expr::get_precedence("*"), 5);
    assert_eq!(azlang::parser::op_expr::get_precedence("+"), 4);
    assert_eq!(azlang::parser::op_expr::get_precedence("x"), 0);
}

#[test]
fn parse_refuses_a_literal_after_blank_lines() {
    let tokens = vec![Token::Newline, Token::Semicolon, Token::Indent, Token::StringLiteral("x".to_string())];
    let mut parser = Parser::new(&tokens);
    assert!(matches!(parser.parse(), Err(ParserError::LiteralAtTopLevel)));
}

#[test]
fn parse_of_a_function_definition_reads_its_head() {
    let tokens = vec![
        Token::FunctionDef, ident("topla"), Token::LParen,
        ident("a"), Token::Colon, Token::IntegerType, Token::Comma,
        Token::MutableDecl, ident("b"), Token::Comma,
        Token::RParen, Token::Colon, Token::Void, Token::Newline, Token::Indent,
        Token::Dedent,
    ];
    let mut parser = Parser::new(&tokens);
    let program = parser.parse().unwrap();
    assert_eq!(program.expressions.len(), 1);
    match &program.expressions[0] {
        Expr::FunctionDef { name, params, body, return_type, is_allocator, .. } => {
            assert_eq!(name, "topla");
            assert_eq!(params.len(), 2);
            assert_eq!(params[0].name, "a");
            assert!(matches!(params[0].typ, azlang::parser::ast::Type::Integer));
            assert!(!params[0].is_mutable);
            assert_eq!(params[1].name, "b");
            assert!(matches!(params[1].typ, azlang::parser::ast::Type::Any));
            assert!(params[1].is_mutable);
            assert!(body.is_empty());
            assert!(matches!(return_type, Some(azlang::parser::ast::Type::Void)));
            assert!(!is_allocator);
        },
        other => panic!("unexpected {:?}", other),
    }
}

#[test]
fn parse_of_a_function_definition_without_return_type_colon_fails() {
    let tokens = vec![
        Token::FunctionDef, ident("f"), Token::LParen, Token::RParen, Token::Void, Token::Newline,
    ];
    let mut parser = Parser::new(&tokens);
    match parser.parse() {
        Err(ParserError::InContext(_, inner)) => match *inner {
            ParserError::OtherError(Token::Colon, Some(Token::Void)) => {},
            other => panic!("unexpected {:?}", other),
        },
        other => panic!("unexpected {:?}", other.map(|p| p.expressions.len())),
    }
}

#[test]
fn parse_of_a_conditional_with_an_empty_block() {
    let tokens = vec![Token::Conditional, Token::True, Token::Newline, Token::Indent, Token::Dedent];
    let mut parser = Parser::new(&tokens);
    let program = parser.parse().unwrap();
    assert_eq!(program.expressions.len(), 1);
    match &program.expressions[0] {
        Expr::If { condition, then_branch, else_branch } => {
            assert!(matches!(**condition, Expr::Bool(true)));
            assert!(then_branch.is_empty());
            assert!(else_branch.is_empty());
        },
        other => panic!("unexpected {:?}", other),
    }
}

#[test]
fn parse_of_a_loop_over_a_literal() {
    let tokens = vec![
        Token::Loop, Token::Loop, Token::Number(3), Token::In, ident("x"), Token::Newline, Token::Indent,
        Token::Dedent,
    ];
    let mut parser = Parser::new(&tokens);
    let program = parser.parse().unwrap();
    match &program.expressions[0] {
        Expr::Loop { var_name, iterable, body } => {
            assert_eq!(var_name, "x");
            assert!(matches!(**iterable, Expr::Number(3)));
            assert!(body.is_empty());
        },
        other => panic!("unexpected {:?}", other),
    }
}

#[test]
fn parse_of_a_loop_without_in_fails() {
    let tokens = vec![Token::Loop, Token::Loop, Token::Number(3), ident("x"), Token::Newline];
    let mut parser = Parser::new(&tokens);
    match parser.parse() {
        Err(ParserError::InContext(_, inner)) => {
            assert!(matches!(*inner, ParserError::OtherError(Token::In, Some(Token::Identifier(_)))));
        },
        other => panic!("unexpected {:?}", other.map(|p| p.expressions.len())),
    }
}

#[test]
fn parse_of_a_match_without_arms() {
    let tokens = vec![Token::Match, Token::Number(1), Token::Newline, Token::Indent, Token::Dedent];
    let mut parser = Parser::new(&tokens);
    let program = parser.parse().unwrap();
    match &program.expressions[0] {
        Expr::Match { target, arms } => {
            assert!(matches!(**target, Expr::Number(1)));
            assert!(arms.is_empty());
        },
        other => panic!("unexpected {:?}", other),
    }
}

#[test]
fn parse_of_a_function_keeps_an_untyped_last_parameter() {
    let tokens = vec![
        Token::FunctionDef, ident("f"), Token::LParen, ident("x"), Token::RParen, Token::Colon, Token::Void,
        Token::Newline, Token::Indent, Token::Dedent,
    ];
    let mut parser = Parser::new(&tokens);
    let program = parser.parse().unwrap();
    match &program.expressions[0] {
        Expr::FunctionDef { name, params, body, .. } => {
            assert_eq!(name, "f");
            assert_eq!(params.len(), 1);
            assert_eq!(params[0].name, "x");
            assert!(matches!(params[0].typ, azlang::parser::ast::Type::Any));
            assert!(!params[0].is_mutable);
            assert!(body.is_empty());
        },
        other => panic!("unexpected {:?}", other),
    }
}

#[test]
fn parse_of_a_field_reads_an_index_on_its_name() {
    let tokens = vec![
        Token::ConstantDecl, ident("y"), op("="), ident("p"), Token::Dot, ident("ad"), Token::Newline,
    ];
    let mut parser = Parser::new(&tokens);
    let program = parser.parse().unwrap();
    assert_eq!(program.expressions.len(), 1);
    match &program.expressions[0] {
        Expr::Decl { name, value, .. } => {
            assert_eq!(name, "y");
            match &**value {
                Expr::Index { target, index, .. } => {
                    assert!(matches!(&**target, Expr::VariableRef { name, .. } if name == "p"));
                    assert!(matches!(&**index, Expr::String(f, false) if f == "ad"));
                },
                other => panic!("unexpected {:?}", other),
            }
        },
        other => panic!("unexpected {:?}", other),
    }
}

#[test]
fn parse_of_a_struct_value_reads_its_field() {
    let tokens = vec![
        Token::ConstantDecl, ident("y"), op("="), ident("P"), Token::LBrace, ident("a"), Token::Colon,
        Token::Number(1), Token::RBrace, Token::Newline,
    ];
    let mut parser = Parser::new(&tokens);
    let program = parser.parse().unwrap();
    match &program.expressions[0] {
        Expr::Decl { value, .. } => match &**value {
            Expr::StructInit { name, args, .. } => {
                assert_eq!(name, "P");
                assert_eq!(args.len(), 1);
                assert_eq!(args[0].0, "a");
                assert!(matches!(args[0].1, Expr::Number(1)));
            },
            other => panic!("unexpected {:?}", other),
        },
        other => panic!("unexpected {:?}", other),
    }
}

#[test]
fn parse_of_a_struct_value_without_colon_fails() {
    let tokens = vec![
        Token::ConstantDecl, ident("y"), op("="), ident("P"), Token::LBrace, ident("a"), Token::Number(1),
        Token::RBrace, Token::Newline,
    ];
    let mut parser = Parser::new(&tokens);
    let failed = match parser.parse() {
        Err(e) => format!("{:?}", e).contains("StructInitColonError"),
        Ok(_) => false,
    };
    assert!(failed);
}

#[test]
fn an_operator_between_two_literals_keeps_their_order() {
    let tokens = vec![Token::Number(1), Token::Newline, op("-"), Token::Number(7), Token::Newline];
    let mut stream = azlang::parser::stream::TokenStream::new(&tokens);
    match azlang::parser::op_expr::parse_binary_op_expr(&mut stream, 0) {
        Ok(Expr::BinaryOp { left, op, right }) => {
            assert!(matches!(*left, Expr::Number(1)));
            assert_eq!(op, "-");
            assert!(matches!(*right, Expr::Number(7)));
        },
        other => panic!("unexpected {:?}", other),
    }
    assert_eq!(stream.pos, 5);
}
