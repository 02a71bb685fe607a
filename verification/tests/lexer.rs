use oxide::ast::FloatLit;
use oxide::lexer::token::Token;
use oxide::lexer::tokenize;

fn ident(s: &str) -> Result<Token, ()> {
    Ok(Token::Ident(s.to_string()))
}

#[test]
fn tokenize_declaration() {
    assert_eq!(
        tokenize("int x = 5;"),
        vec![Ok(Token::TypeInt), ident("x"), Ok(Token::Assign), Ok(Token::Int(5)), Ok(Token::Semicolon)]
    );
}

#[test]
fn tokenize_blank_and_comments_give_nothing() {
    assert_eq!(tokenize(""), vec![]);
    assert_eq!(tokenize(" \t\n\x0C "), vec![]);
    assert_eq!(tokenize("  // a note\n /* a * block */ \t// end"), vec![]);
}

#[test]
fn tokenize_leading_blank_is_ignored() {
    assert_eq!(tokenize("  \n\t x += 1;"), tokenize("x += 1;"));
    assert_eq!(tokenize(" \"a b\""), tokenize("\"a b\""));
}

#[test]
fn tokenize_keyword_wins_over_name() {
    assert_eq!(tokenize("int"), vec![Ok(Token::TypeInt)]);
    assert_eq!(tokenize("integer"), vec![ident("integer")]);
    assert_eq!(tokenize("interface"), vec![Ok(Token::Interface)]);
    assert_eq!(tokenize("interfaces"), vec![ident("interfaces")]);
    assert_eq!(tokenize("_if2"), vec![ident("_if2")]);
    assert_eq!(tokenize("null"), vec![Ok(Token::Null)]);
}

#[test]
fn tokenize_longest_operator_wins() {
    assert_eq!(
        tokenize("a**b..=c??d"),
        vec![
            ident("a"),
            Ok(Token::StarStar),
            ident("b"),
            Ok(Token::DotDotEq),
            ident("c"),
            Ok(Token::QuestionQuestion),
            ident("d"),
        ]
    );
    assert_eq!(
        tokenize("i++ <= j-- != k := 0..1"),
        vec![
            ident("i"),
            Ok(Token::PlusPlus),
            Ok(Token::LessEqual),
            ident("j"),
            Ok(Token::MinusMinus),
            Ok(Token::NotEqual),
            ident("k"),
            Ok(Token::ColonAssign),
            Ok(Token::Int(0)),
            Ok(Token::DotDot),
            Ok(Token::Int(1)),
        ]
    );
}

#[test]
fn tokenize_slash_forms() {
    assert_eq!(
        tokenize("a / b /= c // d"),
        vec![ident("a"), Ok(Token::Slash), ident("b"), Ok(Token::SlashAssign), ident("c")]
    );
}

#[test]
fn tokenize_integer_limits() {
    assert_eq!(tokenize("9223372036854775807"), vec![Ok(Token::Int(i64::MAX))]);
    assert_eq!(tokenize("9223372036854775808"), vec![Err(())]);
    assert_eq!(tokenize("007"), vec![Ok(Token::Int(7))]);
}

#[test]
fn tokenize_float_keeps_its_text() {
    let f = FloatLit { display: "3.14".to_string(), debug: "3.14".to_string() };
    assert_eq!(tokenize("3.14"), vec![Ok(Token::Float(f))]);
    assert_eq!(tokenize("3."), vec![Ok(Token::Int(3)), Ok(Token::Dot)]);
}

#[test]
fn tokenize_strings() {
    assert_eq!(tokenize("\"hi there\""), vec![Ok(Token::StringLiteral("hi there".to_string()))]);
    assert_eq!(tokenize("\"a${x}b\""), vec![Ok(Token::StringInterp("a${x}b".to_string()))]);
    assert_eq!(tokenize("\"\""), vec![Ok(Token::StringLiteral(String::new()))]);
}

#[test]
fn tokenize_errors() {
    assert_eq!(tokenize("\"a$b\""), vec![Err(()), Err(())]);
    assert_eq!(tokenize("x # y"), vec![ident("x"), Err(()), ident("y")]);
    assert_eq!(tokenize("@"), vec![Err(())]);
    assert_eq!(tokenize("\"open"), vec![Err(())]);
}

#[test]
fn token_debug_text() {
    assert_eq!(Token::Ident("x".to_string()).debug_string(), "Ident(\"x\")");
    assert_eq!(Token::StringLiteral("a\"b".to_string()).debug_string(), "StringLiteral(\"a\\\"b\")");
    assert_eq!(Token::Semicolon.debug_string(), "Semicolon");
    assert_eq!(Token::Int(-5).debug_string(), "Int(-5)");
    let f = FloatLit { display: "2.5".to_string(), debug: "2.5".to_string() };
    assert_eq!(Token::Float(f).debug_string(), "Float(2.5)");
    assert!(Token::Plus.is(&Token::Plus));
    assert!(!Token::Plus.is(&Token::Minus));
}
