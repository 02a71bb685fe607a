use oxide::ast::{BinaryOp, Expr, FloatLit, Literal, Program, Stmt, StringPart, TopLevel, Type};
use oxide::codegen::Codegen;
use oxide::lexer::tokenize;
use oxide::parser::Parser;
use oxide::text::int_to_string;

const HEADERS: &str = "#include <stdio.h>\n#include <stdlib.h>\n#include <string.h>\n#include <stdbool.h>\n\n";

fn program(src: &str) -> Program {
    let toks = tokenize(src).into_iter().map(|t| t.unwrap()).collect();
    Parser::new(toks).parse_program_checked().unwrap().unwrap()
}

fn c_of(src: &str) -> String {
    let p = program(src);
    let mut g = Codegen::new();
    assert!(g.supports(&p));
    g.generate(&p)
}

fn function(name: &str, return_ty: Type, body: Vec<Stmt>) -> Program {
    Program { items: vec![TopLevel::Function { return_ty, name: name.to_string(), params: vec![], body }] }
}

#[test]
fn codegen_main() {
    let c = c_of("void main() { int x = 5; println(x); }");
    let expected = format!("{}int main(void) {{\n    int x = 5;\n    printf(\"%d\\n\", x);\n    return 0;\n}}\n\n", HEADERS);
    assert_eq!(c, expected);
}

#[test]
fn codegen_empty_program_is_headers() {
    assert_eq!(c_of(""), HEADERS);
}

#[test]
fn codegen_function_signatures() {
    let c = c_of("int add(int a, &const int b, &string c) { return a + b; }");
    assert_eq!(c, format!("{}int add(int a, int* b, char** c) {{\n    return (a + b);\n}}\n\n", HEADERS));
    let c = c_of("never fail() { }");
    assert_eq!(c, format!("{}__attribute__((noreturn)) void fail(void) {{\n}}\n\n", HEADERS));
    let c = c_of("float? f() { return null; }");
    assert_eq!(c, format!("{}double f(void) {{\n    return NULL;\n}}\n\n", HEADERS));
}

#[test]
fn codegen_control_flow() {
    let c = c_of("void main() { if (a) { b = 1; } else { while (c) { d = !e; } } for (int i = 0..10) { } for (float j = 1..=n) { } }");
    let body = "    if (a) {\n        b = 1;\n    } else {\n        while (c) {\n            d = (!e);\n        }\n    }\n    for (int i = 0; i < 10; i++) {\n    }\n    for (double j = 1; j <= n; j++) {\n    }\n    return 0;\n";
    assert_eq!(c, format!("{}int main(void) {{\n{}}}\n\n", HEADERS, body));
}

#[test]
fn codegen_c_style_for() {
    let c = c_of("void f() { for (i = 0; i < 3; i++) { g(i); } }");
    let body = "    for (i = 0 (i < 3); i++) {\n        g(i);\n    }\n";
    assert_eq!(c, format!("{}void f(void) {{\n{}}}\n\n", HEADERS, body));
}

#[test]
fn codegen_expressions() {
    let c = c_of("int f() { x := 2 ** 3; y := a ?? b; z := -x % 4; s := \"hi\"; t := true; println(); println(\"hi\"); }");
    let body = "    int x = pow(2, 3);\n    int y = (a != NULL ? a : b);\n    int z = ((-x) % 4);\n    char* s = \"hi\";\n    bool t = true;\n    printf(\"\\n\");\n    printf(\"%s\\n\", \"hi\");\n";
    assert_eq!(c, format!("{}int f(void) {{\n{}}}\n\n", HEADERS, body));
}

#[test]
fn codegen_float_literal_uses_its_text() {
    let f = FloatLit { display: "2.5".to_string(), debug: "2.5".to_string() };
    let body = vec![Stmt::VarDecl {
        ty: None,
        name: "y".to_string(),
        value: Expr::Literal(Literal::Float(f)),
        is_const: true,
    }];
    let mut g = Codegen::new();
    let c = g.generate(&function("f", Type::Void, body));
    assert_eq!(c, format!("{}void f(void) {{\n    const double y = 2.5;\n}}\n\n", HEADERS));
}

#[test]
fn codegen_string_interpolation() {
    let parts = vec![
        StringPart::Literal("x = ".to_string()),
        StringPart::Expr(Box::new(Expr::Ident("x".to_string()))),
        StringPart::Literal("!".to_string()),
    ];
    let call = Expr::Call { name: "println".to_string(), args: vec![Expr::StringInterp(parts)] };
    let mut g = Codegen::new();
    let c = g.generate(&function("f", Type::Void, vec![Stmt::Expr(call)]));
    assert_eq!(c, format!("{}void f(void) {{\n    printf(\"x = %s!\\n\", x);\n}}\n\n", HEADERS));
}

#[test]
fn codegen_range_outside_for() {
    let r = Expr::BinaryOp {
        op: BinaryOp::Range,
        left: Box::new(Expr::Literal(Literal::Int(1))),
        right: Box::new(Expr::Literal(Literal::Int(9))),
    };
    let mut g = Codegen::new();
    let c = g.generate(&function("f", Type::Void, vec![Stmt::Expr(r)]));
    assert_eq!(c, format!("{}void f(void) {{\n    9;\n}}\n\n", HEADERS));
}

#[test]
fn codegen_appends_across_calls() {
    let p = program("void f() { }");
    let mut g = Codegen::new();
    let first = g.generate(&p);
    let second = g.generate(&p);
    assert_eq!(second, format!("{}{}", first, first));
}

#[test]
fn codegen_supports() {
    let g = Codegen::new();
    assert!(g.supports(&program("int main() { int? x = null; }")));
    assert!(!g.supports(&function("f", Type::Array(Box::new(Type::Int)), vec![])));
    assert!(g.supports(&function("main", Type::Array(Box::new(Type::Int)), vec![])));
    let decl = Stmt::VarDecl {
        ty: Some(Type::Nullable(Box::new(Type::Array(Box::new(Type::Int))))),
        name: "v".to_string(),
        value: Expr::Literal(Literal::Null),
        is_const: false,
    };
    assert!(!g.supports(&function("main", Type::Void, vec![decl])));
    let s = TopLevel::StructDecl { name: "S".to_string(), fields: vec![], implements: None };
    assert!(!g.supports(&Program { items: vec![s] }));
}

#[test]
fn int_text() {
    assert_eq!(int_to_string(0), "0");
    assert_eq!(int_to_string(-42), "-42");
    assert_eq!(int_to_string(i64::MIN), "-9223372036854775808");
    assert_eq!(int_to_string(i64::MAX), "9223372036854775807");
}

#[test]
fn codegen_member_forms() {
    let c = c_of("int f() { return a.b + a.m(1, 2) + v[i] + a.n(); }");
    let body = "    return (((a.b + a_m(a, 1, 2)) + v[i]) + a_n(a, ));\n";
    assert_eq!(c, format!("{}int f(void) {{\n{}}}\n\n", HEADERS, body));
}

#[test]
fn codegen_items_concatenate() {
    let both = c_of("void f() { } int g() { return 1; }");
    let f = c_of("void f() { }");
    let g = c_of("int g() { return 1; }");
    assert_eq!(both, format!("{}{}{}", HEADERS, &f[HEADERS.len()..], &g[HEADERS.len()..]));
}
