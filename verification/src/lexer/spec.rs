use vstd::prelude::*;
use crate::lexer::token::Token;

verus! {

// ---------------------------------------------------------------------------
// The token grammar, as predicates on words.
// ---------------------------------------------------------------------------

pub open spec fn is_ws(c: char) -> bool {
    c == ' ' || c == '\t' || c == '\n' || c == '\x0C'
}

pub open spec fn is_digit(c: char) -> bool {
    '0' <= c <= '9'
}

pub open spec fn is_lower(c: char) -> bool {
    'a' <= c <= 'z'
}

/// A character that may start a name.
pub open spec fn is_ident_start(c: char) -> bool {
    ('a' <= c <= 'z') || ('A' <= c <= 'Z') || c == '_'
}

/// A character that may continue a name.
pub open spec fn is_ident_char(c: char) -> bool {
    is_ident_start(c) || is_digit(c)
}

/// The operator spelled by one character.
pub open spec fn op1(c: char) -> Option<Token> {
    match c {
        '=' => Some(Token::Assign),
        '+' => Some(Token::Plus),
        '-' => Some(Token::Minus),
        '*' => Some(Token::Star),
        '/' => Some(Token::Slash),
        '<' => Some(Token::Less),
        '>' => Some(Token::Greater),
        '!' => Some(Token::Not),
        ',' => Some(Token::Comma),
        '.' => Some(Token::Dot),
        '%' => Some(Token::Percent),
        '?' => Some(Token::Question),
        '&' => Some(Token::Ampersand),
        ';' => Some(Token::Semicolon),
        '(' => Some(Token::LParen),
        ')' => Some(Token::RParen),
        '{' => Some(Token::LBrace),
        '}' => Some(Token::RBrace),
        '[' => Some(Token::LBracket),
        ']' => Some(Token::RBracket),
        _ => None,
    }
}

/// The operator spelled by two characters.
pub open spec fn op2(c: char, d: char) -> Option<Token> {
    if c == '*' && d == '*' {
        Some(Token::StarStar)
    }
    else if c == '=' && d == '=' {
        Some(Token::EqualEqual)
    }
    else if c == '!' && d == '=' {
        Some(Token::NotEqual)
    }
    else if c == '<' && d == '=' {
        Some(Token::LessEqual)
    }
    else if c == '>' && d == '=' {
        Some(Token::GreaterEqual)
    }
    else if c == '&' && d == '&' {
        Some(Token::And)
    }
    else if c == '|' && d == '|' {
        Some(Token::Or)
    }
    else if c == '.' && d == '.' {
        Some(Token::DotDot)
    }
    else if c == '+' && d == '+' {
        Some(Token::PlusPlus)
    }
    else if c == '-' && d == '-' {
        Some(Token::MinusMinus)
    }
    else if c == '+' && d == '=' {
        Some(Token::PlusAssign)
    }
    else if c == '-' && d == '=' {
        Some(Token::MinusAssign)
    }
    else if c == '*' && d == '=' {
        Some(Token::StarAssign)
    }
    else if c == '/' && d == '=' {
        Some(Token::SlashAssign)
    }
    else if c == ':' && d == '=' {
        Some(Token::ColonAssign)
    }
    else if c == '?' && d == '?' {
        Some(Token::QuestionQuestion)
    }
    else {
        None
    }
}

/// The keyword spelled by a word.
pub open spec fn keyword(w: Seq<char>) -> Option<Token> {
    if w.len() == 3 && w[0] == 'i' && w[1] == 'n' && w[2] == 't' {
        Some(Token::TypeInt)
    }
    else if w.len() == 5 && w[0] == 'f' && w[1] == 'l' && w[2] == 'o' && w[3] == 'a' && w[4] == 't' {
        Some(Token::TypeFloat)
    }
    else if w.len() == 6 && w[0] == 's' && w[1] == 't' && w[2] == 'r' && w[3] == 'i' && w[4] == 'n' && w[5] == 'g' {
        Some(Token::TypeString)
    }
    else if w.len() == 4 && w[0] == 'b' && w[1] == 'o' && w[2] == 'o' && w[3] == 'l' {
        Some(Token::TypeBool)
    }
    else if w.len() == 6 && w[0] == 'p' && w[1] == 'u' && w[2] == 'b' && w[3] == 'l' && w[4] == 'i' && w[5] == 'c' {
        Some(Token::Public)
    }
    else if w.len() == 7 && w[0] == 'p' && w[1] == 'r' && w[2] == 'i' && w[3] == 'v' && w[4] == 'a' && w[5] == 't' && w[6] == 'e' {
        Some(Token::Private)
    }
    else if w.len() == 6 && w[0] == 's' && w[1] == 't' && w[2] == 'a' && w[3] == 't' && w[4] == 'i' && w[5] == 'c' {
        Some(Token::Static)
    }
    else if w.len() == 5 && w[0] == 'c' && w[1] == 'o' && w[2] == 'n' && w[3] == 's' && w[4] == 't' {
        Some(Token::Const)
    }
    else if w.len() == 4 && w[0] == 'v' && w[1] == 'o' && w[2] == 'i' && w[3] == 'd' {
        Some(Token::TypeVoid)
    }
    else if w.len() == 5 && w[0] == 'n' && w[1] == 'e' && w[2] == 'v' && w[3] == 'e' && w[4] == 'r' {
        Some(Token::TypeNever)
    }
    else if w.len() == 6 && w[0] == 'r' && w[1] == 'e' && w[2] == 't' && w[3] == 'u' && w[4] == 'r' && w[5] == 'n' {
        Some(Token::Return)
    }
    else if w.len() == 2 && w[0] == 'i' && w[1] == 'f' {
        Some(Token::If)
    }
    else if w.len() == 4 && w[0] == 'e' && w[1] == 'l' && w[2] == 's' && w[3] == 'e' {
        Some(Token::Else)
    }
    else if w.len() == 5 && w[0] == 'w' && w[1] == 'h' && w[2] == 'i' && w[3] == 'l' && w[4] == 'e' {
        Some(Token::While)
    }
    else if w.len() == 3 && w[0] == 'f' && w[1] == 'o' && w[2] == 'r' {
        Some(Token::For)
    }
    else if w.len() == 6 && w[0] == 's' && w[1] == 't' && w[2] == 'r' && w[3] == 'u' && w[4] == 'c' && w[5] == 't' {
        Some(Token::Struct)
    }
    else if w.len() == 9 && w[0] == 'i' && w[1] == 'n' && w[2] == 't' && w[3] == 'e' && w[4] == 'r' && w[5] == 'f' && w[6] == 'a' && w[7] == 'c' && w[8] == 'e' {
        Some(Token::Interface)
    }
    else if w.len() == 10 && w[0] == 'i' && w[1] == 'm' && w[2] == 'p' && w[3] == 'l' && w[4] == 'e' && w[5] == 'm' && w[6] == 'e' && w[7] == 'n' && w[8] == 't' && w[9] == 's' {
        Some(Token::Implements)
    }
    else if w.len() == 4 && w[0] == 't' && w[1] == 'r' && w[2] == 'u' && w[3] == 'e' {
        Some(Token::True)
    }
    else if w.len() == 5 && w[0] == 'f' && w[1] == 'a' && w[2] == 'l' && w[3] == 's' && w[4] == 'e' {
        Some(Token::False)
    }
    else if w.len() == 4 && w[0] == 'n' && w[1] == 'u' && w[2] == 'l' && w[3] == 'l' {
        Some(Token::Null)
    }
    else {
        None
    }
}

/// The operator or keyword spelled by a word.
pub open spec fn fixed_token(w: Seq<char>) -> Option<Token> {
    if w.len() == 1 {
        op1(w[0])
    } else if w.len() == 2 && op2(w[0], w[1]) is Some {
        op2(w[0], w[1])
    } else if w.len() == 3 && w[0] == '.' && w[1] == '.' && w[2] == '=' {
        Some(Token::DotDotEq)
    } else {
        keyword(w)
    }
}

/// `[0-9]+`
pub open spec fn is_int_word(w: Seq<char>) -> bool {
    w.len() >= 1 && forall|j: int| 0 <= j < w.len() ==> is_digit(#[trigger] w[j])
}

/// `[0-9]+` `.` `[0-9]+`, with the `.` at `p`.
pub open spec fn float_split(w: Seq<char>, p: int) -> bool {
    &&& 1 <= p < w.len() - 1
    &&& w[p] == '.'
    &&& forall|j: int| 0 <= j < w.len() && j != p ==> is_digit(#[trigger] w[j])
}

/// `[0-9]+\.[0-9]+`
pub open spec fn is_float_word(w: Seq<char>) -> bool {
    exists|p: int| float_split(w, p)
}

/// `[a-zA-Z_][a-zA-Z0-9_]*`
pub open spec fn is_ident_word(w: Seq<char>) -> bool {
    w.len() >= 1 && is_ident_start(w[0]) && forall|j: int| 0 <= j < w.len() ==> is_ident_char(#[trigger] w[j])
}

/// `"[^"$]*"`
pub open spec fn is_str_word(w: Seq<char>) -> bool {
    &&& w.len() >= 2
    &&& w[0] == '"'
    &&& w[w.len() - 1] == '"'
    &&& forall|j: int| 1 <= j < w.len() - 1 ==> #[trigger] w[j] != '"' && w[j] != '$'
}

/// Whether `${` starts at `j`.
pub open spec fn opens_interp(w: Seq<char>, j: int) -> bool {
    0 <= j && j + 1 < w.len() && w[j] == '$' && w[j + 1] == '{'
}

/// `"[^"]*\$\{[^"]*"`
pub open spec fn is_interp_word(w: Seq<char>) -> bool {
    &&& w.len() >= 2
    &&& w[0] == '"'
    &&& w[w.len() - 1] == '"'
    &&& forall|j: int| 1 <= j < w.len() - 1 ==> #[trigger] w[j] != '"'
    &&& exists|j: int| 1 <= j && j + 1 < w.len() - 1 && opens_interp(w, j)
}

/// `[ \t\n\f]+`
pub open spec fn is_ws_word(w: Seq<char>) -> bool {
    w.len() >= 1 && forall|j: int| 0 <= j < w.len() ==> is_ws(#[trigger] w[j])
}

/// `//[^\n]*`
pub open spec fn is_line_comment(w: Seq<char>) -> bool {
    &&& w.len() >= 2
    &&& w[0] == '/'
    &&& w[1] == '/'
    &&& forall|j: int| 2 <= j < w.len() ==> #[trigger] w[j] != '\n'
}

/// Whether `*/` starts at `j`.
pub open spec fn closes_comment(w: Seq<char>, j: int) -> bool {
    0 <= j && j + 1 < w.len() && w[j] == '*' && w[j + 1] == '/'
}

/// `/\*[^*]*\*+(?:[^/*][^*]*\*+)*/`: `/*`, then text without `*/`, then `*/`.
pub open spec fn is_block_comment(w: Seq<char>) -> bool {
    &&& w.len() >= 4
    &&& w[0] == '/'
    &&& w[1] == '*'
    &&& closes_comment(w, w.len() - 2)
    &&& forall|j: int| 2 <= j < w.len() - 2 ==> !#[trigger] closes_comment(w, j)
}

/// The patterns of the grammar: a fixed token, a number, a name, a string, or
/// text to skip (white space and comments).
pub enum Pat {
    Fixed(Token),
    Int,
    Float,
    Ident,
    Str,
    Interp,
    Skip,
}

/// The pattern that a whole word matches, if any. A keyword is also a name; the
/// keyword wins.
pub open spec fn word_pat(w: Seq<char>) -> Option<Pat> {
    if fixed_token(w) is Some {
        Some(Pat::Fixed(fixed_token(w).unwrap()))
    } else if is_ident_word(w) {
        Some(Pat::Ident)
    } else if is_int_word(w) {
        Some(Pat::Int)
    } else if is_float_word(w) {
        Some(Pat::Float)
    } else if is_str_word(w) {
        Some(Pat::Str)
    } else if is_interp_word(w) {
        Some(Pat::Interp)
    } else if is_ws_word(w) || is_line_comment(w) || is_block_comment(w) {
        Some(Pat::Skip)
    } else {
        None
    }
}

/// Whether some word of the grammar starts with `w`.
pub open spec fn viable(w: Seq<char>) -> bool {
    exists|x: Seq<char>| #[trigger] word_pat(w + x) is Some
}

/// The longest `m <= n` such that the `m` characters from `i` form a word of the
/// grammar (0 when there is none).
pub open spec fn longest_match(s: Seq<char>, i: int, n: nat) -> nat
    decreases n,
{
    if n == 0 {
        0
    } else if word_pat(s.subrange(i, i + n)) is Some {
        n
    } else {
        longest_match(s, i, (n - 1) as nat)
    }
}

/// The longest `m <= n` such that the `m` characters from `i` start a word.
pub open spec fn longest_viable(s: Seq<char>, i: int, n: nat) -> nat
    decreases n,
{
    if n == 0 {
        0
    } else if viable(s.subrange(i, i + n)) {
        n
    } else {
        longest_viable(s, i, (n - 1) as nat)
    }
}

/// The value of a word of decimal digits.
pub open spec fn digits_value(w: Seq<char>) -> nat
    decreases w.len(),
{
    if w.len() == 0 {
        0
    } else {
        digits_value(w.drop_last()) * 10 + ((w.last() as nat) - 48) as nat
    }
}

/// One item that the lexer yields: a token (its pattern and text) or an error.
pub enum Lexeme {
    Tok(Pat, Seq<char>),
    Error,
}

/// What a matched word yields: an integer too large for `i64` is an error.
pub open spec fn lexeme_of(p: Pat, w: Seq<char>) -> Lexeme {
    if p == Pat::Int && digits_value(w) > i64::MAX {
        Lexeme::Error
    } else {
        Lexeme::Tok(p, w)
    }
}

/// The items from position `i` on. At each position the longest word of the
/// grammar is taken (skipped when it is white space or a comment); where no word
/// starts, one error covers the longest start of a word, and at least one character.
pub open spec fn lex_from(s: Seq<char>, i: int) -> Seq<Lexeme>
    decreases s.len() - i,
{
    if i < 0 || i >= s.len() {
        Seq::empty()
    } else {
        let n = (s.len() - i) as nat;
        let m = longest_match(s, i, n);
        if m > 0 {
            if i + m <= s.len() {
                let w = s.subrange(i, i + m);
                match word_pat(w) {
                    Some(Pat::Skip) => lex_from(s, i + m),
                    Some(p) => seq![lexeme_of(p, w)] + lex_from(s, i + m),
                    None => Seq::empty(),
                }
            } else {
                Seq::empty()
            }
        } else {
            let v = longest_viable(s, i, n);
            let e = if 0 < v <= n {
                v
            } else {
                1
            };
            seq![Lexeme::Error] + lex_from(s, i + e)
        }
    }
}

/// The items of a whole text.
pub open spec fn lex(s: Seq<char>) -> Seq<Lexeme> {
    lex_from(s, 0)
}

/// Whether a token is the one that a pattern and its text give.
pub open spec fn token_agrees(t: Token, p: Pat, w: Seq<char>) -> bool {
    match p {
        Pat::Fixed(k) => t == k,
        Pat::Int => t == Token::Int(digits_value(w) as i64),
        Pat::Float => t matches Token::Float(f) && f.display@ == w && f.debug@ == w,
        Pat::Ident => t matches Token::Ident(x) && x@ == w,
        Pat::Str => t matches Token::StringLiteral(x) && x@ == w.subrange(1, w.len() - 1),
        Pat::Interp => t matches Token::StringInterp(x) && x@ == w.subrange(1, w.len() - 1),
        Pat::Skip => false,
    }
}

/// Whether a lexer result is the item that the grammar gives.
pub open spec fn result_agrees(r: Result<Token, ()>, l: Lexeme) -> bool {
    match (r, l) {
        (Ok(t), Lexeme::Tok(p, w)) => token_agrees(t, p, w),
        (Err(()), Lexeme::Error) => true,
        _ => false,
    }
}

} // verus!
