use vstd::prelude::*;
use crate::ast::FloatLit;
use crate::text::{append_int, debug_quoted, debug_str, int_text};

verus! {

/// A token of Oxide source text.
#[derive(Debug, PartialEq, Eq, Hash, Clone)]
pub enum Token {
    // types
    /// `int`
    TypeInt,
    /// `float`
    TypeFloat,
    /// `string`
    TypeString,
    /// `bool`
    TypeBool,
    // modifiers
    /// `public`
    Public,
    /// `private`
    Private,
    /// `static`
    Static,
    /// `const`
    Const,
    // functions
    /// `void`
    TypeVoid,
    /// `never`
    TypeNever,
    /// `return`
    Return,
    // control flow
    /// `if`
    If,
    /// `else`
    Else,
    /// `while`
    While,
    /// `for`
    For,
    // structs, interfaces
    /// `struct`
    Struct,
    /// `interface`
    Interface,
    /// `implements`
    Implements,
    // reserved words
    /// `true`
    True,
    /// `false`
    False,
    /// `null`
    Null,
    // operators
    /// `=`
    Assign,
    /// `+`
    Plus,
    /// `-`
    Minus,
    /// `*`
    Star,
    /// `**`
    StarStar,
    /// `/`
    Slash,
    /// `==`
    EqualEqual,
    /// `!=`
    NotEqual,
    /// `<`
    Less,
    /// `>`
    Greater,
    /// `<=`
    LessEqual,
    /// `>=`
    GreaterEqual,
    /// `&&`
    And,
    /// `||`
    Or,
    /// `!`
    Not,
    /// `,`
    Comma,
    /// `.`
    Dot,
    /// `..`
    DotDot,
    /// `..=`
    DotDotEq,
    /// `++`
    PlusPlus,
    /// `--`
    MinusMinus,
    /// `%`
    Percent,
    /// `+=`
    PlusAssign,
    /// `-=`
    MinusAssign,
    /// `*=`
    StarAssign,
    /// `/=`
    SlashAssign,
    /// `:=`
    ColonAssign,
    /// `?`
    Question,
    /// `??`
    QuestionQuestion,
    /// `&`
    Ampersand,
    // delimiters
    /// `;`
    Semicolon,
    /// `(`
    LParen,
    /// `)`
    RParen,
    /// `{`
    LBrace,
    /// `}`
    RBrace,
    /// `[`
    LBracket,
    /// `]`
    RBracket,
    // literals and names
    /// A decimal integer (`[0-9]+`).
    Int(i64),
    /// A decimal with a fraction (`[0-9]+.[0-9]+`).
    Float(FloatLit),
    /// A name (`[a-zA-Z_][a-zA-Z0-9_]*`).
    Ident(String),
    /// A string without interpolation: the text between the quotes.
    StringLiteral(String),
    /// A string with an interpolation (`${`): the text between the quotes.
    StringInterp(String),
}

/// Whether a token carries no value.
pub open spec fn is_unit(t: Token) -> bool {
    !(t is Int || t is Float || t is Ident || t is StringLiteral || t is StringInterp)
}

/// The debug form of a token, as in `Ident("x")` or `Semicolon`.
pub open spec fn token_debug(t: Token) -> Seq<char> {
    match t {
        Token::TypeInt => "TypeInt"@,
        Token::TypeFloat => "TypeFloat"@,
        Token::TypeString => "TypeString"@,
        Token::TypeBool => "TypeBool"@,
        Token::Public => "Public"@,
        Token::Private => "Private"@,
        Token::Static => "Static"@,
        Token::Const => "Const"@,
        Token::TypeVoid => "TypeVoid"@,
        Token::TypeNever => "TypeNever"@,
        Token::Return => "Return"@,
        Token::If => "If"@,
        Token::Else => "Else"@,
        Token::While => "While"@,
        Token::For => "For"@,
        Token::Struct => "Struct"@,
        Token::Interface => "Interface"@,
        Token::Implements => "Implements"@,
        Token::True => "True"@,
        Token::False => "False"@,
        Token::Null => "Null"@,
        Token::Assign => "Assign"@,
        Token::Plus => "Plus"@,
        Token::Minus => "Minus"@,
        Token::Star => "Star"@,
        Token::StarStar => "StarStar"@,
        Token::Slash => "Slash"@,
        Token::EqualEqual => "EqualEqual"@,
        Token::NotEqual => "NotEqual"@,
        Token::Less => "Less"@,
        Token::Greater => "Greater"@,
        Token::LessEqual => "LessEqual"@,
        Token::GreaterEqual => "GreaterEqual"@,
        Token::And => "And"@,
        Token::Or => "Or"@,
        Token::Not => "Not"@,
        Token::Comma => "Comma"@,
        Token::Dot => "Dot"@,
        Token::DotDot => "DotDot"@,
        Token::DotDotEq => "DotDotEq"@,
        Token::PlusPlus => "PlusPlus"@,
        Token::MinusMinus => "MinusMinus"@,
        Token::Percent => "Percent"@,
        Token::PlusAssign => "PlusAssign"@,
        Token::MinusAssign => "MinusAssign"@,
        Token::StarAssign => "StarAssign"@,
        Token::SlashAssign => "SlashAssign"@,
        Token::ColonAssign => "ColonAssign"@,
        Token::Question => "Question"@,
        Token::QuestionQuestion => "QuestionQuestion"@,
        Token::Ampersand => "Ampersand"@,
        Token::Semicolon => "Semicolon"@,
        Token::LParen => "LParen"@,
        Token::RParen => "RParen"@,
        Token::LBrace => "LBrace"@,
        Token::RBrace => "RBrace"@,
        Token::LBracket => "LBracket"@,
        Token::RBracket => "RBracket"@,
        Token::Int(n) => "Int("@ + int_text(n as int) + ")"@,
        Token::Float(f) => "Float("@ + f.debug@ + ")"@,
        Token::Ident(s) => "Ident("@ + debug_quoted(s@) + ")"@,
        Token::StringLiteral(s) => "StringLiteral("@ + debug_quoted(s@) + ")"@,
        Token::StringInterp(s) => "StringInterp("@ + debug_quoted(s@) + ")"@,
    }
}

impl Token {
    /// The debug form of the token.
    pub fn debug_string(&self) -> (s: String)
        ensures
            s@ == token_debug(*self),
    {
        match self {
            Token::TypeInt => String::from_str("TypeInt"),
            Token::TypeFloat => String::from_str("TypeFloat"),
            Token::TypeString => String::from_str("TypeString"),
            Token::TypeBool => String::from_str("TypeBool"),
            Token::Public => String::from_str("Public"),
            Token::Private => String::from_str("Private"),
            Token::Static => String::from_str("Static"),
            Token::Const => String::from_str("Const"),
            Token::TypeVoid => String::from_str("TypeVoid"),
            Token::TypeNever => String::from_str("TypeNever"),
            Token::Return => String::from_str("Return"),
            Token::If => String::from_str("If"),
            Token::Else => String::from_str("Else"),
            Token::While => String::from_str("While"),
            Token::For => String::from_str("For"),
            Token::Struct => String::from_str("Struct"),
            Token::Interface => String::from_str("Interface"),
            Token::Implements => String::from_str("Implements"),
            Token::True => String::from_str("True"),
            Token::False => String::from_str("False"),
            Token::Null => String::from_str("Null"),
            Token::Assign => String::from_str("Assign"),
            Token::Plus => String::from_str("Plus"),
            Token::Minus => String::from_str("Minus"),
            Token::Star => String::from_str("Star"),
            Token::StarStar => String::from_str("StarStar"),
            Token::Slash => String::from_str("Slash"),
            Token::EqualEqual => String::from_str("EqualEqual"),
            Token::NotEqual => String::from_str("NotEqual"),
            Token::Less => String::from_str("Less"),
            Token::Greater => String::from_str("Greater"),
            Token::LessEqual => String::from_str("LessEqual"),
            Token::GreaterEqual => String::from_str("GreaterEqual"),
            Token::And => String::from_str("And"),
            Token::Or => String::from_str("Or"),
            Token::Not => String::from_str("Not"),
            Token::Comma => String::from_str("Comma"),
            Token::Dot => String::from_str("Dot"),
            Token::DotDot => String::from_str("DotDot"),
            Token::DotDotEq => String::from_str("DotDotEq"),
            Token::PlusPlus => String::from_str("PlusPlus"),
            Token::MinusMinus => String::from_str("MinusMinus"),
            Token::Percent => String::from_str("Percent"),
            Token::PlusAssign => String::from_str("PlusAssign"),
            Token::MinusAssign => String::from_str("MinusAssign"),
            Token::StarAssign => String::from_str("StarAssign"),
            Token::SlashAssign => String::from_str("SlashAssign"),
            Token::ColonAssign => String::from_str("ColonAssign"),
            Token::Question => String::from_str("Question"),
            Token::QuestionQuestion => String::from_str("QuestionQuestion"),
            Token::Ampersand => String::from_str("Ampersand"),
            Token::Semicolon => String::from_str("Semicolon"),
            Token::LParen => String::from_str("LParen"),
            Token::RParen => String::from_str("RParen"),
            Token::LBrace => String::from_str("LBrace"),
            Token::RBrace => String::from_str("RBrace"),
            Token::LBracket => String::from_str("LBracket"),
            Token::RBracket => String::from_str("RBracket"),
            Token::Int(n) => {
                let mut s = String::from_str("Int(");
                append_int(&mut s, *n);
                s.append(")");
                s
            },
            Token::Float(f) => {
                let mut s = String::from_str("Float(");
                s.append(f.debug.as_str());
                s.append(")");
                s
            },
            Token::Ident(x) => {
                let mut s = String::from_str("Ident(");
                let d = debug_str(x.as_str());
                s.append(d.as_str());
                s.append(")");
                s
            },
            Token::StringLiteral(x) => {
                let mut s = String::from_str("StringLiteral(");
                let d = debug_str(x.as_str());
                s.append(d.as_str());
                s.append(")");
                s
            },
            Token::StringInterp(x) => {
                let mut s = String::from_str("StringInterp(");
                let d = debug_str(x.as_str());
                s.append(d.as_str());
                s.append(")");
                s
            },
        }
    }

    /// Whether this token is the token `other`, which carries no value.
    pub fn is(&self, other: &Token) -> (b: bool)
        requires
            is_unit(*other),
        ensures
            b == (*self == *other),
    {
        match (self, other) {
            (Token::TypeInt, Token::TypeInt) => true,
            (Token::TypeFloat, Token::TypeFloat) => true,
            (Token::TypeString, Token::TypeString) => true,
            (Token::TypeBool, Token::TypeBool) => true,
            (Token::Public, Token::Public) => true,
            (Token::Private, Token::Private) => true,
            (Token::Static, Token::Static) => true,
            (Token::Const, Token::Const) => true,
            (Token::TypeVoid, Token::TypeVoid) => true,
            (Token::TypeNever, Token::TypeNever) => true,
            (Token::Return, Token::Return) => true,
            (Token::If, Token::If) => true,
            (Token::Else, Token::Else) => true,
            (Token::While, Token::While) => true,
            (Token::For, Token::For) => true,
            (Token::Struct, Token::Struct) => true,
            (Token::Interface, Token::Interface) => true,
            (Token::Implements, Token::Implements) => true,
            (Token::True, Token::True) => true,
            (Token::False, Token::False) => true,
            (Token::Null, Token::Null) => true,
            (Token::Assign, Token::Assign) => true,
            (Token::Plus, Token::Plus) => true,
            (Token::Minus, Token::Minus) => true,
            (Token::Star, Token::Star) => true,
            (Token::StarStar, Token::StarStar) => true,
            (Token::Slash, Token::Slash) => true,
            (Token::EqualEqual, Token::EqualEqual) => true,
            (Token::NotEqual, Token::NotEqual) => true,
            (Token::Less, Token::Less) => true,
            (Token::Greater, Token::Greater) => true,
            (Token::LessEqual, Token::LessEqual) => true,
            (Token::GreaterEqual, Token::GreaterEqual) => true,
            (Token::And, Token::And) => true,
            (Token::Or, Token::Or) => true,
            (Token::Not, Token::Not) => true,
            (Token::Comma, Token::Comma) => true,
            (Token::Dot, Token::Dot) => true,
            (Token::DotDot, Token::DotDot) => true,
            (Token::DotDotEq, Token::DotDotEq) => true,
            (Token::PlusPlus, Token::PlusPlus) => true,
            (Token::MinusMinus, Token::MinusMinus) => true,
            (Token::Percent, Token::Percent) => true,
            (Token::PlusAssign, Token::PlusAssign) => true,
            (Token::MinusAssign, Token::MinusAssign) => true,
            (Token::StarAssign, Token::StarAssign) => true,
            (Token::SlashAssign, Token::SlashAssign) => true,
            (Token::ColonAssign, Token::ColonAssign) => true,
            (Token::Question, Token::Question) => true,
            (Token::QuestionQuestion, Token::QuestionQuestion) => true,
            (Token::Ampersand, Token::Ampersand) => true,
            (Token::Semicolon, Token::Semicolon) => true,
            (Token::LParen, Token::LParen) => true,
            (Token::RParen, Token::RParen) => true,
            (Token::LBrace, Token::LBrace) => true,
            (Token::RBrace, Token::RBrace) => true,
            (Token::LBracket, Token::LBracket) => true,
            (Token::RBracket, Token::RBracket) => true,
            _ => false,
        }
    }
}

} // verus!
