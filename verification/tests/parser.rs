use oxide::ast::{BinaryOp, Expr, Literal, Param, Program, Stmt, TopLevel, Type};
use oxide::lexer::token::Token;
use oxide::lexer::tokenize;
use oxide::parser::Parser;

fn tokens(src: &str) -> Vec<Token> {
    tokenize(src).into_iter().map(|t| t.unwrap()).collect()
}

fn parse(src: &str) -> Option<Result<Program, String>> {
    Parser::new(tokens(src)).parse_program_checked()
}

fn parse_ok(src: &str) -> Program {
    parse(src).unwrap().unwrap()
}

fn parse_err(src: &str) -> String {
    parse(src).unwrap().unwrap_err()
}

fn lit(n: i64) -> Box<Expr> {
    Box::new(Expr::Literal(Literal::Int(n)))
}

fn returned(p: &Program) -> String {
    match &p.items[0] {
        TopLevel::Function { body, .. } => match &body[0] {
            Stmt::Return(Some(e)) => format!("{:?}", e),
            other => panic!("not a return: {:?}", other),
        },
        other => panic!("not a function: {:?}", other),
    }
}

#[test]
fn parse_simple_main() {
    let p = parse_ok("void main() { int x = 5; return; }");
    let expected = Program {
        items: vec![TopLevel::Function {
            return_ty: Type::Void,
            name: "main".to_string(),
            params: vec![],
            body: vec![
                Stmt::VarDecl { ty: Some(Type::Int), name: "x".to_string(), value: *lit(5), is_const: false },
                Stmt::Return(None),
            ],
        }],
    };
    assert_eq!(format!("{:?}", p), format!("{:?}", expected));
}

#[test]
fn parse_empty_program() {
    assert_eq!(parse_ok("").items.len(), 0);
    assert_eq!(parse_ok("// nothing here").items.len(), 0);
}

#[test]
fn parse_binary_operators_group_left() {
    let p = parse_ok("int f() { return 1 - 2 - 3; }");
    let inner = Expr::BinaryOp { op: BinaryOp::Sub, left: lit(1), right: lit(2) };
    let expected = Expr::BinaryOp { op: BinaryOp::Sub, left: Box::new(inner), right: lit(3) };
    assert_eq!(returned(&p), format!("{:?}", expected));
}

#[test]
fn parse_precedence() {
    let p = parse_ok("int f() { return 1 + 2 * 3; }");
    let mul = Expr::BinaryOp { op: BinaryOp::Mul, left: lit(2), right: lit(3) };
    let expected = Expr::BinaryOp { op: BinaryOp::Add, left: lit(1), right: Box::new(mul) };
    assert_eq!(returned(&p), format!("{:?}", expected));

    let p = parse_ok("int f() { return (1 + 2) * 3; }");
    let add = Expr::BinaryOp { op: BinaryOp::Add, left: lit(1), right: lit(2) };
    let expected = Expr::BinaryOp { op: BinaryOp::Mul, left: Box::new(add), right: lit(3) };
    assert_eq!(returned(&p), format!("{:?}", expected));
}

#[test]
fn parse_params_and_nullable_types() {
    let p = parse_ok("int? f(int a, &const string b, &float c) { return null; }");
    match &p.items[0] {
        TopLevel::Function { return_ty, params, .. } => {
            assert_eq!(*return_ty, Type::Nullable(Box::new(Type::Int)));
            let expected = vec![
                Param { ty: Type::Int, name: "a".to_string(), by_ref: false, by_const_ref: false },
                Param { ty: Type::String, name: "b".to_string(), by_ref: false, by_const_ref: true },
                Param { ty: Type::Float, name: "c".to_string(), by_ref: true, by_const_ref: false },
            ];
            assert_eq!(format!("{:?}", params), format!("{:?}", expected));
        },
        _ => panic!(),
    }
}

#[test]
fn parse_lone_ampersand_is_a_reference() {
    let tokens = vec![
        Token::TypeVoid,
        Token::Ident("f".to_string()),
        Token::LParen,
        Token::Ampersand,
        Token::Const,
        Token::TypeInt,
        Token::Ident("a".to_string()),
        Token::Comma,
        Token::Ampersand,
        Token::TypeInt,
        Token::Ident("b".to_string()),
        Token::RParen,
        Token::LBrace,
        Token::RBrace,
    ];
    let p = Parser::new(tokens).parse_program().unwrap();
    match &p.items[0] {
        TopLevel::Function { params, .. } => {
            let expected = vec![
                Param { ty: Type::Int, name: "a".to_string(), by_ref: false, by_const_ref: true },
                Param { ty: Type::Int, name: "b".to_string(), by_ref: true, by_const_ref: false },
            ];
            assert_eq!(format!("{:?}", params), format!("{:?}", expected));
        },
        _ => panic!(),
    }
    assert_eq!(parse_err("void f(& & int a) { }"), "Expected type, got Ampersand");
}

#[test]
fn parse_classic_for_header() {
    let p = parse_ok("void f() { for (i := 0; i < n; i++) { } }");
    let body = match &p.items[0] {
        TopLevel::Function { body, .. } => format!("{:?}", body),
        _ => panic!(),
    };
    let expected = "[For { init: VarDecl { ty: None, name: \"i\", value: Literal(Int(0)), is_const: false }, \
        condition: BinaryOp { op: Lt, left: Ident(\"i\"), right: Ident(\"n\") }, \
        step: Expr(UnaryOp { op: PostIncrement, expr: Ident(\"i\") }), body: [] }]";
    assert_eq!(body, expected);
    let p = parse_ok("void f() { for (i = 0; i; i += 2) { } for (j = 0; j; g(j)) { } }");
    let text = format!("{:?}", p);
    assert!(text.contains("step: Assign { name: \"i\", value: BinaryOp { op: Add, left: Ident(\"i\"), right: Literal(Int(2)) } }"));
    assert!(text.contains("step: Expr(Call { name: \"g\", args: [Ident(\"j\")] })"));
    assert_eq!(parse_err("void f() { for (i = 0; i; i++;) { } }"), "Expected RParen, got Semicolon");
}

#[test]
fn parse_statements() {
    let src = "void main() { \
        const x := 1; \
        y = 2; y += 3; y -= 4; y++; y--; \
        if (y < 3) { f(1, 2); } else if (y > 4) { } else { return; } \
        while (true) { } \
        for (int i = 0..10) { } \
        for (i = 0; i < 3; i++) { } \
        }";
    let p = parse_ok(src);
    match &p.items[0] {
        TopLevel::Function { body, .. } => {
            assert_eq!(body.len(), 10);
            let text = format!("{:?}", body);
            assert!(text.contains("VarDecl { ty: None, name: \"x\", value: Literal(Int(1)), is_const: true }"));
            assert!(text.contains("Assign { name: \"y\", value: BinaryOp { op: Add, left: Ident(\"y\"), right: Literal(Int(3)) } }"));
            assert!(text.contains("Expr(UnaryOp { op: PostIncrement, expr: Ident(\"y\") })"));
            assert!(text.contains("ForRange { ty: Some(Int), name: \"i\""));
        },
        _ => panic!(),
    }
}

#[test]
fn parse_expressions_after_names() {
    let p = parse_ok("int f() { return a.b + a.m(1) + v[2] + g(); }");
    let text = returned(&p);
    assert!(text.contains("FieldAccess { object: Ident(\"a\"), field: \"b\" }"));
    assert!(text.contains("MethodCall { object: Ident(\"a\"), method: \"m\", args: [Literal(Int(1))] }"));
    assert!(text.contains("Index { array: Ident(\"v\"), index: Literal(Int(2)) }"));
    assert!(text.contains("Call { name: \"g\", args: [] }"));
}

#[test]
fn parse_error_messages() {
    assert_eq!(parse_err("int main( { }"), "Expected type, got LBrace");
    assert_eq!(parse_err("void main() { int x = 5 }"), "Expected Semicolon, got RBrace");
    assert_eq!(parse_err("void main() {"), "Expected RBrace, got EOF");
    assert_eq!(parse_err("void main() { x = ; }"), "Unexpected token in expression: Semicolon");
    assert_eq!(parse_err("void 5() { }"), "Expected function name, got Int(5)");
    assert_eq!(parse_err("void main() { x y; }"), "Unexpected token in statement: Ident(\"y\")");
    assert_eq!(parse_err("void main() { int x 5; }"), "Expected = or :=, got Int(5)");
    assert_eq!(parse_err("void main() { return 1 +"), "Unexpected EOF in expression");
    assert_eq!(parse_err("int f() { return a.5; }"), "Expected field name, got Int(5)");
    assert_eq!(parse_err("void main() { ; }"), "Unexpected token in statement: Semicolon");
}

#[test]
fn parse_stops_at_unimplemented_items() {
    assert!(parse("struct S { }").is_none());
    assert!(parse("interface I { }").is_none());
    assert!(parse("void main() { } (S s) void m() { }").is_none());
    assert!(parse("void main() { for (i = 0; i < 3; 5) { } }").is_none());
}

#[test]
fn parse_program_agrees_with_checked_form() {
    let src = "int add(int a, int b) { return a + b; }";
    let a = Parser::new(tokens(src)).parse_program().unwrap();
    let b = parse_ok(src);
    assert_eq!(format!("{:?}", a), format!("{:?}", b));
    assert_eq!(Parser::new(tokens("void")).parse_program().unwrap_err(), "Expected function name, got EOF");
}

#[test]
fn parse_leaves_no_tokens_over() {
    assert_eq!(parse_err("void main() { } }"), "Expected type, got RBrace");
    assert_eq!(parse_ok("void f() { } void g() { }").items.len(), 2);
}
