use oxide::ast::{Program, Type};
use oxide::lexer::tokenize;
use oxide::parser::Parser;
use oxide::typechecker::{TypeChecker, TypeError};

fn program(src: &str) -> Program {
    let toks = tokenize(src).into_iter().map(|t| t.unwrap()).collect();
    Parser::new(toks).parse_program_checked().unwrap().unwrap()
}

fn errors(src: &str) -> Vec<TypeError> {
    let mut c = TypeChecker::new();
    c.check_program(&program(src));
    c.errors
}

#[test]
fn check_well_typed_program() {
    let src = "int add(int a, int b) { return a + b; } \
               void main() { int x = add(1, 2); println(x); float y = 1.5; y = y * 2; }";
    assert_eq!(errors(src), vec![]);
}

#[test]
fn check_undeclared_variable() {
    let e = errors("void main() { x = 1; }");
    assert_eq!(e, vec![TypeError::UndeclaredVariable("x".to_string())]);
    assert_eq!(e[0].to_string(), "undeclared variable 'x'");
    assert_eq!(errors("void main() { int y = x + 1; }"), vec![TypeError::UndeclaredVariable("x".to_string())]);
}

#[test]
fn check_type_mismatch() {
    let e = errors("void main() { int x = 1; x = \"s\"; }");
    assert_eq!(e, vec![TypeError::TypeMismatch { expected: Type::Int, found: Type::String }]);
    assert_eq!(e[0].to_string(), "type mismatch: expected 'Int', found 'String'");
}

#[test]
fn check_declaration_is_not_checked_against_its_value() {
    assert_eq!(errors("void main() { int x = \"s\"; }"), vec![]);
}

#[test]
fn check_null_to_non_nullable() {
    let e = errors("void main() { int x = null; }");
    assert_eq!(e, vec![TypeError::NullAssignedToNonNullable("x".to_string())]);
    assert_eq!(e[0].to_string(), "cannot assign null to non-nullable variable 'x'");
    assert_eq!(errors("void main() { int? x = null; x = 5; x = null; }"), vec![]);
}

#[test]
fn check_return_type_mismatch() {
    let e = errors("int f() { return \"s\"; }");
    let expected = TypeError::ReturnTypeMismatch { expected: Type::Int, found: Type::String };
    assert_eq!(e, vec![expected]);
    assert_eq!(e[0].to_string(), "return type mismatch: expected 'Int', found 'String'");
    let e = errors("string? f() { return; }");
    let n = Type::Nullable(Box::new(Type::String));
    assert_eq!(e[0].to_string(), "return type mismatch: expected 'Nullable(String)', found 'Void'");
    assert_eq!(e, vec![TypeError::ReturnTypeMismatch { expected: n, found: Type::Void }]);
}

#[test]
fn check_undeclared_function() {
    let e = errors("void main() { foo(1); }");
    assert_eq!(e, vec![TypeError::UndeclaredFunction("foo".to_string())]);
    assert_eq!(e[0].to_string(), "undeclared function 'foo'");
    assert_eq!(errors("void main() { println(1); printf(\"x\"); string s = sprintf(\"y\"); }"), vec![]);
}

#[test]
fn check_functions_are_known_before_their_definition() {
    assert_eq!(errors("void main() { f(); } void f() { }"), vec![]);
}

#[test]
fn check_block_scopes_close() {
    let e = errors("void main() { if (true) { int y = 1; } y = 2; }");
    assert_eq!(e, vec![TypeError::UndeclaredVariable("y".to_string())]);
    assert_eq!(errors("void main() { for (int i = 0..3) { i = i + 1; } }"), vec![]);
    assert_eq!(errors("void main() { for (int i = 0..3) { } i = 1; }"), vec![TypeError::UndeclaredVariable("i".to_string())]);
}

#[test]
fn check_parameters_are_in_scope_of_their_function_only() {
    let e = errors("int f(int a) { return a; } void main() { a = 1; }");
    assert_eq!(e, vec![TypeError::UndeclaredVariable("a".to_string())]);
}

#[test]
fn check_errors_accumulate_in_order() {
    let e = errors("void main() { x = 1; g(); int z = null; }");
    assert_eq!(
        e,
        vec![
            TypeError::UndeclaredVariable("x".to_string()),
            TypeError::UndeclaredFunction("g".to_string()),
            TypeError::NullAssignedToNonNullable("z".to_string()),
        ]
    );
}

#[test]
fn check_program_twice_keeps_earlier_errors() {
    let mut c = TypeChecker::new();
    c.check_program(&program("void main() { x = 1; }"));
    c.check_program(&program("void main() { g(); }"));
    assert_eq!(
        c.errors,
        vec![TypeError::UndeclaredVariable("x".to_string()), TypeError::UndeclaredFunction("g".to_string())]
    );
}

#[test]
fn type_text() {
    assert_eq!(Type::Nullable(Box::new(Type::Int)).to_string(), "int?");
    assert_eq!(Type::Array(Box::new(Type::String)).to_string(), "string[]");
    assert_eq!(Type::Never.to_string(), "never");
    assert_eq!(Type::Null.to_string(), "null");
    assert_eq!(Type::Array(Box::new(Type::Nullable(Box::new(Type::Float)))).debug_string(), "Array(Nullable(Float))");
    let t = Type::Nullable(Box::new(Type::Bool));
    assert_eq!(t.clone(), t);
}

#[test]
fn check_inner_declaration_hides_outer_until_block_ends() {
    let src = "void main() { int x = 1; if (true) { string x = \"s\"; x = \"t\"; } x = 2; x = \"u\"; }";
    assert_eq!(errors(src), vec![TypeError::TypeMismatch { expected: Type::Int, found: Type::String }]);
}

#[test]
fn check_program_without_functions_adds_no_error() {
    let s = oxide::ast::TopLevel::StructDecl { name: "S".to_string(), fields: vec![], implements: None };
    let mut c = TypeChecker::new();
    c.check_program(&Program { items: vec![s] });
    assert!(c.errors().is_empty());
}

#[test]
fn check_errors_accessor_matches_field() {
    let mut c = TypeChecker::new();
    c.check_program(&program("void main() { x = 1; }"));
    assert_eq!(c.errors(), &c.errors);
    assert_eq!(c.errors().len(), 1);
}

#[test]
fn check_program_clone_gives_same_errors() {
    let p = program("void main() { y = 1; for (int i = 0..3) { } }");
    let q = p.clone();
    assert_eq!(format!("{:?}", p), format!("{:?}", q));
    let mut c = TypeChecker::new();
    c.check_program(&q);
    assert_eq!(c.errors, vec![TypeError::UndeclaredVariable("y".to_string())]);
}
