pub mod token;
pub mod spec;
pub mod lemmas;
pub mod laws;

pub use token::Token;

use vstd::prelude::*;
use vstd::std_specs::iter::IteratorSpec;
use crate::lexer::spec::{
    Lexeme, Pat, closes_comment, digits_value, fixed_token, float_split, is_block_comment, is_digit,
    is_float_word, is_ident_char, is_ident_start, is_ident_word, is_int_word, is_interp_word, is_line_comment,
    is_str_word, is_ws, is_ws_word, keyword, lex, lex_from, lexeme_of, longest_match, longest_viable, op1, op2,
    opens_interp, result_agrees, token_agrees, viable, word_pat,
};
use crate::ast::FloatLit;
use crate::text::push_char;
use crate::lexer::lemmas::{
    is_op_start, lemma_digit_words, lemma_extend_first, lemma_first_char, lemma_float_dot, lemma_op_words,
    lemma_quote_words, lemma_slash_words, lemma_ws_words, dollar_in, open_in, lemma_in_step,
    lemma_quote_prefix_viable, lemma_quote_longer_none, lemma_quote_match, lemma_quote_mismatch,
    lemma_quote_unclosed, lemma_digits_mono, lemma_fixed_shape, lemma_ident_words, lemma_keyword_lower,
    lemma_longest_match, lemma_longest_viable, lemma_op2_start,
};

verus! {

/// What scanning from position `i` found: the length of the longest word there and
/// its pattern; or, where no word starts, the length of the error.
pub open spec fn scan_ok(s: Seq<char>, i: int, len: int, k: Option<Pat>) -> bool {
    let n = (s.len() - i) as nat;
    match k {
        Some(p) => 0 < len <= n && longest_match(s, i, n) == len && word_pat(s.subrange(i, i + len)) == Some(p),
        None => longest_match(s, i, n) == 0 && len == (if 0 < longest_viable(s, i, n) <= n {
            longest_viable(s, i, n) as int
        } else {
            1
        }),
    }
}

fn ident_start(c: char) -> (b: bool)
    ensures
        b == is_ident_start(c),
{
    ('a' <= c && c <= 'z') || ('A' <= c && c <= 'Z') || c == '_'
}

fn digit(c: char) -> (b: bool)
    ensures
        b == is_digit(c),
{
    '0' <= c && c <= '9'
}

fn ident_char(c: char) -> (b: bool)
    ensures
        b == is_ident_char(c),
{
    ident_start(c) || digit(c)
}

fn ws(c: char) -> (b: bool)
    ensures
        b == is_ws(c),
{
    c == ' ' || c == '\t' || c == '\n' || c == '\x0C'
}

/// The keyword spelled by `cs[start..end]`, if any.
fn keyword_at(cs: &Vec<char>, start: usize, end: usize) -> (r: Option<Token>)
    requires
        start <= end <= cs@.len(),
    ensures
        r == keyword(cs@.subrange(start as int, end as int)),
{
    let n = end - start;
    let ghost w = cs@.subrange(start as int, end as int);
    if n == 3 && cs[start + 0] == 'i' && cs[start + 1] == 'n' && cs[start + 2] == 't' {
        return Some(Token::TypeInt);
    }
    if n == 5 && cs[start + 0] == 'f' && cs[start + 1] == 'l' && cs[start + 2] == 'o' && cs[start + 3] == 'a' && cs[start + 4] == 't' {
        return Some(Token::TypeFloat);
    }
    if n == 6 && cs[start + 0] == 's' && cs[start + 1] == 't' && cs[start + 2] == 'r' && cs[start + 3] == 'i' && cs[start + 4] == 'n' && cs[start + 5] == 'g' {
        return Some(Token::TypeString);
    }
    if n == 4 && cs[start + 0] == 'b' && cs[start + 1] == 'o' && cs[start + 2] == 'o' && cs[start + 3] == 'l' {
        return Some(Token::TypeBool);
    }
    if n == 6 && cs[start + 0] == 'p' && cs[start + 1] == 'u' && cs[start + 2] == 'b' && cs[start + 3] == 'l' && cs[start + 4] == 'i' && cs[start + 5] == 'c' {
        return Some(Token::Public);
    }
    if n == 7 && cs[start + 0] == 'p' && cs[start + 1] == 'r' && cs[start + 2] == 'i' && cs[start + 3] == 'v' && cs[start + 4] == 'a' && cs[start + 5] == 't' && cs[start + 6] == 'e' {
        return Some(Token::Private);
    }
    if n == 6 && cs[start + 0] == 's' && cs[start + 1] == 't' && cs[start + 2] == 'a' && cs[start + 3] == 't' && cs[start + 4] == 'i' && cs[start + 5] == 'c' {
        return Some(Token::Static);
    }
    if n == 5 && cs[start + 0] == 'c' && cs[start + 1] == 'o' && cs[start + 2] == 'n' && cs[start + 3] == 's' && cs[start + 4] == 't' {
        return Some(Token::Const);
    }
    if n == 4 && cs[start + 0] == 'v' && cs[start + 1] == 'o' && cs[start + 2] == 'i' && cs[start + 3] == 'd' {
        return Some(Token::TypeVoid);
    }
    if n == 5 && cs[start + 0] == 'n' && cs[start + 1] == 'e' && cs[start + 2] == 'v' && cs[start + 3] == 'e' && cs[start + 4] == 'r' {
        return Some(Token::TypeNever);
    }
    if n == 6 && cs[start + 0] == 'r' && cs[start + 1] == 'e' && cs[start + 2] == 't' && cs[start + 3] == 'u' && cs[start + 4] == 'r' && cs[start + 5] == 'n' {
        return Some(Token::Return);
    }
    if n == 2 && cs[start + 0] == 'i' && cs[start + 1] == 'f' {
        return Some(Token::If);
    }
    if n == 4 && cs[start + 0] == 'e' && cs[start + 1] == 'l' && cs[start + 2] == 's' && cs[start + 3] == 'e' {
        return Some(Token::Else);
    }
    if n == 5 && cs[start + 0] == 'w' && cs[start + 1] == 'h' && cs[start + 2] == 'i' && cs[start + 3] == 'l' && cs[start + 4] == 'e' {
        return Some(Token::While);
    }
    if n == 3 && cs[start + 0] == 'f' && cs[start + 1] == 'o' && cs[start + 2] == 'r' {
        return Some(Token::For);
    }
    if n == 6 && cs[start + 0] == 's' && cs[start + 1] == 't' && cs[start + 2] == 'r' && cs[start + 3] == 'u' && cs[start + 4] == 'c' && cs[start + 5] == 't' {
        return Some(Token::Struct);
    }
    if n == 9 && cs[start + 0] == 'i' && cs[start + 1] == 'n' && cs[start + 2] == 't' && cs[start + 3] == 'e' && cs[start + 4] == 'r' && cs[start + 5] == 'f' && cs[start + 6] == 'a' && cs[start + 7] == 'c' && cs[start + 8] == 'e' {
        return Some(Token::Interface);
    }
    if n == 10 && cs[start + 0] == 'i' && cs[start + 1] == 'm' && cs[start + 2] == 'p' && cs[start + 3] == 'l' && cs[start + 4] == 'e' && cs[start + 5] == 'm' && cs[start + 6] == 'e' && cs[start + 7] == 'n' && cs[start + 8] == 't' && cs[start + 9] == 's' {
        return Some(Token::Implements);
    }
    if n == 4 && cs[start + 0] == 't' && cs[start + 1] == 'r' && cs[start + 2] == 'u' && cs[start + 3] == 'e' {
        return Some(Token::True);
    }
    if n == 5 && cs[start + 0] == 'f' && cs[start + 1] == 'a' && cs[start + 2] == 'l' && cs[start + 3] == 's' && cs[start + 4] == 'e' {
        return Some(Token::False);
    }
    if n == 4 && cs[start + 0] == 'n' && cs[start + 1] == 'u' && cs[start + 2] == 'l' && cs[start + 3] == 'l' {
        return Some(Token::Null);
    }
    None
}

fn op1_of(c: char) -> (r: Option<Token>)
    ensures
        r == op1(c),
{
    match c {
        '=' => Some(Token::Assign),
        '+' => Some(Token::Plus),
        '-' => Some(Token::Minus),
        '*' => Some(Token::Star),
        '/' => Some(Token::Slash),
        '<' => Some(Token::Less),
        '>' => Some(Token::Greater),
        '!' => Some(Token::Not),
        ',' => Some(Token::Comma),
        '.' => Some(Token::Dot),
        '%' => Some(Token::Percent),
        '?' => Some(Token::Question),
        '&' => Some(Token::Ampersand),
        ';' => Some(Token::Semicolon),
        '(' => Some(Token::LParen),
        ')' => Some(Token::RParen),
        '{' => Some(Token::LBrace),
        '}' => Some(Token::RBrace),
        '[' => Some(Token::LBracket),
        ']' => Some(Token::RBracket),
        _ => None,
    }
}

fn op2_of(c: char, d: char) -> (r: Option<Token>)
    ensures
        r == op2(c, d),
{
    if c == '*' && d == '*' {
        return Some(Token::StarStar);
    }
    if c == '=' && d == '=' {
        return Some(Token::EqualEqual);
    }
    if c == '!' && d == '=' {
        return Some(Token::NotEqual);
    }
    if c == '<' && d == '=' {
        return Some(Token::LessEqual);
    }
    if c == '>' && d == '=' {
        return Some(Token::GreaterEqual);
    }
    if c == '&' && d == '&' {
        return Some(Token::And);
    }
    if c == '|' && d == '|' {
        return Some(Token::Or);
    }
    if c == '.' && d == '.' {
        return Some(Token::DotDot);
    }
    if c == '+' && d == '+' {
        return Some(Token::PlusPlus);
    }
    if c == '-' && d == '-' {
        return Some(Token::MinusMinus);
    }
    if c == '+' && d == '=' {
        return Some(Token::PlusAssign);
    }
    if c == '-' && d == '=' {
        return Some(Token::MinusAssign);
    }
    if c == '*' && d == '=' {
        return Some(Token::StarAssign);
    }
    if c == '/' && d == '=' {
        return Some(Token::SlashAssign);
    }
    if c == ':' && d == '=' {
        return Some(Token::ColonAssign);
    }
    if c == '?' && d == '?' {
        return Some(Token::QuestionQuestion);
    }
    None
}

/// A name or a keyword.
fn scan_ident(cs: &Vec<char>, i: usize) -> (r: (usize, Option<Pat>))
    requires
        i < cs.len(),
        is_ident_start(cs@[i as int]),
    ensures
        scan_ok(cs@, i as int, r.0 as int, r.1),
{
    let ghost s = cs@;
    let ghost n = (s.len() - i) as nat;
    let mut k = i + 1;
    while k < cs.len() && ident_char(cs[k])
        invariant
            s == cs@,
            i < k <= cs@.len(),
            forall|j: int| i <= j < k ==> is_ident_char(#[trigger] s[j]),
        decreases cs@.len() - k,
    {
        k = k + 1;
    }
    let kw = keyword_at(cs, i, k);
    let m = k - i;
    proof {
        let w = s.subrange(i as int, k as int);
        lemma_ident_words(w);
        assert(is_ident_word(w));
        assert forall|kk: int| m < kk <= n implies word_pat(#[trigger] s.subrange(i as int, i + kk)) is None by {
            let w2 = s.subrange(i as int, i + kk);
            lemma_ident_words(w2);
            if word_pat(w2) is Some {
                assert(is_ident_char(w2[m as int]));
            }
        }
        lemma_longest_match(s, i as int, n, m as nat);
    }
    match kw {
        Some(t) => (m, Some(Pat::Fixed(t))),
        None => (m, Some(Pat::Ident)),
    }
}


/// An integer or a decimal.
fn scan_number(cs: &Vec<char>, i: usize) -> (r: (usize, Option<Pat>))
    requires
        i < cs.len(),
        is_digit(cs@[i as int]),
    ensures
        scan_ok(cs@, i as int, r.0 as int, r.1),
{
    let ghost s = cs@;
    let ghost n = (s.len() - i) as nat;
    let mut k = i + 1;
    while k < cs.len() && digit(cs[k])
        invariant
            s == cs@,
            i < k <= cs@.len(),
            forall|j: int| i <= j < k ==> is_digit(#[trigger] s[j]),
        decreases cs@.len() - k,
    {
        k = k + 1;
    }
    if k < cs.len() && cs[k] == '.' && k + 1 < cs.len() && digit(cs[k + 1]) {
        let mut f = k + 2;
        while f < cs.len() && digit(cs[f])
            invariant
                s == cs@,
                k + 2 <= f <= cs@.len(),
                forall|j: int| k < j < f ==> is_digit(#[trigger] s[j]),
            decreases cs@.len() - f,
        {
            f = f + 1;
        }
        let m = f - i;
        proof {
            let d = (k - i) as int;
            let w = s.subrange(i as int, f as int);
            assert(float_split(w, d));
            assert(!is_int_word(w)) by {
                assert(!is_digit(w[d]));
            }
            lemma_digit_words(w);
            assert forall|kk: int| m < kk <= n implies word_pat(#[trigger] s.subrange(i as int, i + kk)) is None by {
                let w2 = s.subrange(i as int, i + kk);
                lemma_digit_words(w2);
                assert(!is_digit(w2[d]));
                if is_float_word(w2) {
                    let p = choose|p: int| float_split(w2, p);
                    lemma_float_dot(w2, d, p);
                    assert(!is_digit(w2[m as int]));
                }
            }
            lemma_longest_match(s, i as int, n, m as nat);
        }
        (m, Some(Pat::Float))
    } else {
        let m = k - i;
        proof {
            let w = s.subrange(i as int, k as int);
            assert(is_int_word(w));
            lemma_digit_words(w);
            assert forall|kk: int| m < kk <= n implies word_pat(#[trigger] s.subrange(i as int, i + kk)) is None by {
                let w2 = s.subrange(i as int, i + kk);
                lemma_digit_words(w2);
                assert(!is_digit(w2[m as int]));
                if is_float_word(w2) {
                    let p = choose|p: int| float_split(w2, p);
                    lemma_float_dot(w2, m as int, p);
                    assert(is_digit(w2[m + 1]));
                }
            }
            lemma_longest_match(s, i as int, n, m as nat);
        }
        (m, Some(Pat::Int))
    }
}

/// White space.
fn scan_ws(cs: &Vec<char>, i: usize) -> (r: (usize, Option<Pat>))
    requires
        i < cs.len(),
        is_ws(cs@[i as int]),
    ensures
        scan_ok(cs@, i as int, r.0 as int, r.1),
{
    let ghost s = cs@;
    let ghost n = (s.len() - i) as nat;
    let mut k = i + 1;
    while k < cs.len() && ws(cs[k])
        invariant
            s == cs@,
            i < k <= cs@.len(),
            forall|j: int| i <= j < k ==> is_ws(#[trigger] s[j]),
        decreases cs@.len() - k,
    {
        k = k + 1;
    }
    let m = k - i;
    proof {
        let w = s.subrange(i as int, k as int);
        lemma_ws_words(w);
        assert(is_ws_word(w));
        assert forall|kk: int| m < kk <= n implies word_pat(#[trigger] s.subrange(i as int, i + kk)) is None by {
            let w2 = s.subrange(i as int, i + kk);
            lemma_ws_words(w2);
            assert(!is_ws(w2[m as int]));
        }
        lemma_longest_match(s, i as int, n, m as nat);
    }
    (m, Some(Pat::Skip))
}

/// `/`, `/=`, or a comment.
fn scan_slash(cs: &Vec<char>, i: usize) -> (r: (usize, Option<Pat>))
    requires
        i < cs.len(),
        cs@[i as int] == '/',
    ensures
        scan_ok(cs@, i as int, r.0 as int, r.1),
{
    let ghost s = cs@;
    let ghost n = (s.len() - i) as nat;
    if i + 1 < cs.len() && cs[i + 1] == '/' {
        let mut k = i + 2;
        while k < cs.len() && cs[k] != '\n'
            invariant
                s == cs@,
                i + 2 <= k <= cs@.len(),
                forall|j: int| i + 2 <= j < k ==> #[trigger] s[j] != '\n',
            decreases cs@.len() - k,
        {
            k = k + 1;
        }
        let m = k - i;
        proof {
            let w = s.subrange(i as int, k as int);
            assert(is_line_comment(w));
            lemma_slash_words(w);
            assert forall|kk: int| m < kk <= n implies word_pat(#[trigger] s.subrange(i as int, i + kk)) is None by {
                let w2 = s.subrange(i as int, i + kk);
                lemma_slash_words(w2);
                assert(w2[m as int] == '\n');
            }
            lemma_longest_match(s, i as int, n, m as nat);
        }
        (m, Some(Pat::Skip))
    } else if i + 1 < cs.len() && cs[i + 1] == '*' {
        let mut j = i + 2;
        while j < cs.len() - 1 && !(cs[j] == '*' && cs[j + 1] == '/')
            invariant
                s == cs@,
                i + 2 <= j <= cs@.len(),
                forall|t: int| i + 2 <= t < j ==> !(#[trigger] s[t] == '*' && s[t + 1] == '/'),
            decreases cs@.len() - j,
        {
            j = j + 1;
        }
        if j < cs.len() - 1 {
            let m = j + 2 - i;
            proof {
                let w = s.subrange(i as int, (j + 2) as int);
                assert(closes_comment(w, m - 2));
                assert forall|t: int| 2 <= t < w.len() - 2 implies !#[trigger] closes_comment(w, t) by {
                    assert(w[t] == s[i + t]);
                }
                assert(is_block_comment(w));
                lemma_slash_words(w);
                assert forall|kk: int| m < kk <= n implies word_pat(#[trigger] s.subrange(i as int, i + kk)) is None by {
                    let w2 = s.subrange(i as int, i + kk);
                    lemma_slash_words(w2);
                    assert(closes_comment(w2, m - 2));
                }
                lemma_longest_match(s, i as int, n, m as nat);
            }
            (m, Some(Pat::Skip))
        } else {
            proof {
                let w = s.subrange(i as int, i + 1);
                lemma_slash_words(w);
                assert forall|kk: int| 1 < kk <= n implies word_pat(#[trigger] s.subrange(i as int, i + kk)) is None by {
                    let w2 = s.subrange(i as int, i + kk);
                    lemma_slash_words(w2);
                    if is_block_comment(w2) {
                        assert(closes_comment(w2, kk - 2));
                        let t = i + kk - 2;
                        assert(s[t] == '*' && s[t + 1] == '/');
                    }
                }
                lemma_longest_match(s, i as int, n, 1);
            }
            (1, Some(Pat::Fixed(Token::Slash)))
        }
    } else if i + 1 < cs.len() && cs[i + 1] == '=' {
        proof {
            let w = s.subrange(i as int, i + 2);
            lemma_slash_words(w);
            assert forall|kk: int| 2 < kk <= n implies word_pat(#[trigger] s.subrange(i as int, i + kk)) is None by {
                let w2 = s.subrange(i as int, i + kk);
                lemma_slash_words(w2);
            }
            lemma_longest_match(s, i as int, n, 2);
        }
        (2, Some(Pat::Fixed(Token::SlashAssign)))
    } else {
        proof {
            let w = s.subrange(i as int, i + 1);
            lemma_slash_words(w);
            assert forall|kk: int| 1 < kk <= n implies word_pat(#[trigger] s.subrange(i as int, i + kk)) is None by {
                let w2 = s.subrange(i as int, i + kk);
                lemma_slash_words(w2);
            }
            lemma_longest_match(s, i as int, n, 1);
        }
        (1, Some(Pat::Fixed(Token::Slash)))
    }
}

/// A string, or an error where a string starts and does not match.
fn scan_string(cs: &Vec<char>, i: usize) -> (r: (usize, Option<Pat>))
    requires
        i < cs.len(),
        cs@[i as int] == '"',
    ensures
        scan_ok(cs@, i as int, r.0 as int, r.1),
{
    let ghost s = cs@;
    let ghost n = (s.len() - i) as nat;
    let mut q = i + 1;
    let mut has_dollar = false;
    let mut has_open = false;
    while q < cs.len() && cs[q] != '"'
        invariant
            s == cs@,
            i + 1 <= q <= cs@.len(),
            forall|j: int| i + 1 <= j < q ==> #[trigger] s[j] != '"',
            has_dollar == dollar_in(s, i + 1, q as int),
            has_open == open_in(s, i + 1, q as int),
        decreases cs@.len() - q,
    {
        if cs[q] == '$' {
            has_dollar = true;
            if q + 1 < cs.len() && cs[q + 1] == '{' {
                has_open = true;
            }
        }
        proof {
            lemma_in_step(s, i + 1, q as int);
        }
        q = q + 1;
    }
    proof {
        lemma_quote_prefix_viable(s, i as int, q as int);
    }
    if q < cs.len() {
        let m = q + 1 - i;
        proof {
            lemma_quote_longer_none(s, i as int, q as int);
        }
        if !has_dollar || has_open {
            proof {
                lemma_quote_match(s, i as int, q as int);
                lemma_longest_match(s, i as int, n, m as nat);
            }
            if !has_dollar {
                (m, Some(Pat::Str))
            } else {
                (m, Some(Pat::Interp))
            }
        } else {
            let e = q - i;
            proof {
                lemma_quote_mismatch(s, i as int, q as int);
                lemma_longest_match(s, i as int, n, 0);
                lemma_longest_viable(s, i as int, n, e as nat);
            }
            (e, None)
        }
    } else {
        let e = q - i;
        proof {
            lemma_quote_unclosed(s, i as int);
            lemma_longest_match(s, i as int, n, 0);
            lemma_longest_viable(s, i as int, n, e as nat);
        }
        (e, None)
    }
}


/// An operator; `:` and `|` alone are errors.
fn scan_op(cs: &Vec<char>, i: usize) -> (r: (usize, Option<Pat>))
    requires
        i < cs.len(),
        is_op_start(cs@[i as int]),
        cs@[i as int] != '/',
    ensures
        scan_ok(cs@, i as int, r.0 as int, r.1),
{
    let ghost s = cs@;
    let ghost n = (s.len() - i) as nat;
    let c = cs[i];
    proof {
        assert forall|kk: int| 1 <= kk <= n implies (#[trigger] s.subrange(i as int, i + kk))[0] == c by {}
    }
    if c == '.' && i + 1 < cs.len() && i + 2 < cs.len() && cs[i + 1] == '.' && cs[i + 2] == '=' {
        proof {
            let w = s.subrange(i as int, i + 3);
            lemma_op_words(w);
            assert(fixed_token(w) == Some(Token::DotDotEq));
            assert forall|kk: int| 3 < kk <= n implies word_pat(#[trigger] s.subrange(i as int, i + kk)) is None by {
                lemma_op_words(s.subrange(i as int, i + kk));
            }
            lemma_longest_match(s, i as int, n, 3);
        }
        return (3, Some(Pat::Fixed(Token::DotDotEq)));
    }
    if i + 1 < cs.len() {
        match op2_of(c, cs[i + 1]) {
            Some(t) => {
                proof {
                    let w = s.subrange(i as int, i + 2);
                    lemma_op_words(w);
                    assert(fixed_token(w) == Some(t));
                    assert forall|kk: int| 2 < kk <= n implies word_pat(#[trigger] s.subrange(i as int, i + kk)) is None by {
                        let w2 = s.subrange(i as int, i + kk);
                        lemma_op_words(w2);
                        if kk == 3 {
                            assert(w2[1] == s[i + 1] && w2[2] == s[i + 2]);
                        }
                    }
                    lemma_longest_match(s, i as int, n, 2);
                }
                return (2, Some(Pat::Fixed(t)));
            },
            None => {},
        }
    }
    proof {
        assert forall|kk: int| 1 < kk <= n implies word_pat(#[trigger] s.subrange(i as int, i + kk)) is None by {
            let w2 = s.subrange(i as int, i + kk);
            lemma_op_words(w2);
            assert(w2[1] == s[i + 1]);
            if kk == 3 && w2[0] == '.' && w2[1] == '.' {
                assert(op2('.', '.') is Some);
            }
        }
    }
    match op1_of(c) {
        Some(t) => {
            proof {
                let w = s.subrange(i as int, i + 1);
                lemma_op_words(w);
                assert(fixed_token(w) == Some(t));
                lemma_longest_match(s, i as int, n, 1);
            }
            (1, Some(Pat::Fixed(t)))
        },
        None => {
            proof {
                let w = s.subrange(i as int, i + 1);
                lemma_op_words(w);
                lemma_longest_match(s, i as int, n, 0);
                let x = if c == ':' {
                    seq!['=']
                } else {
                    seq!['|']
                };
                let y = w + x;
                assert(y[0] == c && y[1] == x[0]);
                assert(y.len() == 2);
                lemma_op_words(y);
                assert(word_pat(y) is Some);
                assert(viable(w));
                assert forall|kk: int| 1 < kk <= n implies !viable(#[trigger] s.subrange(i as int, i + kk)) by {
                    let w2 = s.subrange(i as int, i + kk);
                    if viable(w2) {
                        let x2 = choose|x2: Seq<char>| #[trigger] word_pat(w2 + x2) is Some;
                        let y2 = w2 + x2;
                        lemma_extend_first(w2, x2);
                        lemma_op_words(y2);
                        assert(y2[1] == s[i + 1]);
                    }
                }
                lemma_longest_viable(s, i as int, n, 1);
            }
            (1, None)
        },
    }
}

/// A character that starts no word: an error of one character.
proof fn lemma_scan_other(s: Seq<char>, i: int)
    requires
        0 <= i < s.len(),
        !is_ident_start(s[i]),
        !is_digit(s[i]),
        s[i] != '"',
        !is_ws(s[i]),
        !is_op_start(s[i]),
    ensures
        scan_ok(s, i, 1, None),
{
    let n = (s.len() - i) as nat;
    assert forall|kk: int| 0 < kk <= n implies word_pat(#[trigger] s.subrange(i, i + kk)) is None by {
        let w2 = s.subrange(i, i + kk);
        if word_pat(w2) is Some {
            lemma_first_char(w2);
        }
    }
    lemma_longest_match(s, i, n, 0);
    assert forall|kk: int| 0 < kk <= n implies !viable(#[trigger] s.subrange(i, i + kk)) by {
        let w2 = s.subrange(i, i + kk);
        if viable(w2) {
            let x = choose|x: Seq<char>| #[trigger] word_pat(w2 + x) is Some;
            lemma_extend_first(w2, x);
            lemma_first_char(w2 + x);
        }
    }
    lemma_longest_viable(s, i, n, 0);
}

/// The longest word at position `i`, or the error there.
fn scan(cs: &Vec<char>, i: usize) -> (r: (usize, Option<Pat>))
    requires
        i < cs.len(),
    ensures
        scan_ok(cs@, i as int, r.0 as int, r.1),
{
    let c = cs[i];
    if ident_start(c) {
        scan_ident(cs, i)
    } else if digit(c) {
        scan_number(cs, i)
    } else if ws(c) {
        scan_ws(cs, i)
    } else if c == '/' {
        scan_slash(cs, i)
    } else if c == '"' {
        scan_string(cs, i)
    } else if op1_of(c).is_some() || c == '|' || c == ':' {
        scan_op(cs, i)
    } else {
        proof {
            lemma_scan_other(cs@, i as int);
        }
        (1, None)
    }
}

/// The characters of a text.
fn chars_of(source: &str) -> (cs: Vec<char>)
    ensures
        cs@ == source@,
{
    broadcast use vstd::string::axiom_spec_iter, vstd::string::next_postcondition;

    let mut cs: Vec<char> = Vec::new();
    let mut it = source.chars();
    assert(cs@ + it.remaining() =~= source@);
    loop
        invariant
            cs@ + it.remaining() == source@,
            it.obeys_prophetic_iter_laws(),
            it.decrease() is Some,
        ensures
            cs@ == source@,
        decreases it.decrease()->0,
    {
        match it.next() {
            Some(c) => {
                cs.push(c);
            },
            None => {
                assert(cs@ =~= cs@ + it.remaining());
                break;
            },
        }
    }
    cs
}


/// The text `cs[a..b]`.
fn text_of(cs: &Vec<char>, a: usize, b: usize) -> (t: String)
    requires
        a <= b <= cs@.len(),
    ensures
        t@ == cs@.subrange(a as int, b as int),
{
    let mut t = String::new();
    let mut j = a;
    while j < b
        invariant
            a <= j <= b <= cs@.len(),
            t@ == cs@.subrange(a as int, j as int),
        decreases b - j,
    {
        push_char(&mut t, cs[j]);
        j = j + 1;
        assert(t@ =~= cs@.subrange(a as int, j as int));
    }
    t
}

/// The value of the digits `cs[a..b]`, when it fits in an `i64`.
fn digits_to_i64(cs: &Vec<char>, a: usize, b: usize) -> (r: Option<i64>)
    requires
        a <= b <= cs@.len(),
        forall|j: int| a <= j < b ==> is_digit(#[trigger] cs@[j]),
    ensures
        r == if digits_value(cs@.subrange(a as int, b as int)) <= i64::MAX {
            Some(digits_value(cs@.subrange(a as int, b as int)) as i64)
        } else {
            None::<i64>
        },
{
    let ghost w = cs@.subrange(a as int, b as int);
    let mut v: i64 = 0;
    let mut j = a;
    assert(w.subrange(0, 0) =~= Seq::<char>::empty());
    while j < b
        invariant
            a <= j <= b <= cs@.len(),
            w == cs@.subrange(a as int, b as int),
            forall|t: int| a <= t < b ==> is_digit(#[trigger] cs@[t]),
            0 <= v,
            v as nat == digits_value(w.subrange(0, j - a)),
        decreases b - j,
    {
        let c = cs[j];
        let d: u32 = (c as u32) - 48;
        let next: u128 = (v as u128) * 10 + (d as u128);
        proof {
            assert(w.subrange(0, j - a + 1).drop_last() =~= w.subrange(0, j - a));
            assert(w.subrange(0, j - a + 1).last() == c);
        }
        if next > 9223372036854775807u128 {
            proof {
                lemma_digits_mono(w, j - a + 1);
            }
            return None;
        }
        v = next as i64;
        j = j + 1;
    }
    assert(w.subrange(0, b - a) =~= w);
    Some(v)
}

/// The token that a matched word gives (an integer too large is an error).
fn make_token(cs: &Vec<char>, a: usize, b: usize, p: Pat) -> (r: Result<Token, ()>)
    requires
        a < b <= cs@.len(),
        word_pat(cs@.subrange(a as int, b as int)) == Some(p),
        p != Pat::Skip,
    ensures
        result_agrees(r, lexeme_of(p, cs@.subrange(a as int, b as int))),
{
    let ghost w = cs@.subrange(a as int, b as int);
    match p {
        Pat::Fixed(t) => Ok(t),
        Pat::Int => {
            proof {
                assert(is_int_word(w));
                assert forall|j: int| a <= j < b implies is_digit(#[trigger] cs@[j]) by {
                    assert(w[j - a] == cs@[j]);
                }
            }
            match digits_to_i64(cs, a, b) {
                Some(v) => Ok(Token::Int(v)),
                None => Err(()),
            }
        },
        Pat::Float => {
            let display = text_of(cs, a, b);
            let debug = text_of(cs, a, b);
            Ok(Token::Float(FloatLit { display, debug }))
        },
        Pat::Ident => Ok(Token::Ident(text_of(cs, a, b))),
        Pat::Str => {
            proof {
                assert(is_str_word(w));
                assert(w.subrange(1, w.len() - 1) =~= cs@.subrange(a + 1, b - 1));
            }
            Ok(Token::StringLiteral(text_of(cs, a + 1, b - 1)))
        },
        Pat::Interp => {
            proof {
                assert(is_interp_word(w));
                assert(w.subrange(1, w.len() - 1) =~= cs@.subrange(a + 1, b - 1));
            }
            Ok(Token::StringInterp(text_of(cs, a + 1, b - 1)))
        },
        Pat::Skip => vstd::pervasive::unreached(),
    }
}

/// Splits a text into tokens: at each position the longest token (white space
/// and comments are skipped; a keyword wins over a name of the same text); where
/// no token starts, an error that covers the longest start of one (at least one
/// character); an integer too large for `i64` is an error too.
pub fn tokenize(source: &str) -> (r: Vec<Result<Token, ()>>)
    ensures
        r@.len() == lex(source@).len(),
        forall|k: int| 0 <= k < r@.len() ==> result_agrees(#[trigger] r@[k], lex(source@)[k]),
{
    let cs = chars_of(source);
    let ghost s = cs@;
    let mut out: Vec<Result<Token, ()>> = Vec::new();
    let ghost mut produced: Seq<Lexeme> = Seq::empty();
    let mut i: usize = 0;
    assert(lex(s) =~= produced + lex_from(s, 0));
    while i < cs.len()
        invariant
            s == cs@,
            s == source@,
            i <= s.len(),
            lex(s) == produced + lex_from(s, i as int),
            out@.len() == produced.len(),
            forall|k: int| 0 <= k < out@.len() ==> result_agrees(#[trigger] out@[k], produced[k]),
        decreases s.len() - i,
    {
        let (m, k) = scan(&cs, i);
        let ghost w = s.subrange(i as int, i + m);
        match k {
            Some(Pat::Skip) => {
                assert(lex_from(s, i as int) == lex_from(s, i + m));
            },
            Some(p) => {
                let t = make_token(&cs, i, i + m, p);
                let ghost old_out = out@;
                out.push(t);
                proof {
                    assert(lex_from(s, i as int) == seq![lexeme_of(p, w)] + lex_from(s, i + m));
                    assert(produced + lex_from(s, i as int) =~= produced.push(lexeme_of(p, w)) + lex_from(s, i + m));
                    produced = produced.push(lexeme_of(p, w));
                    assert forall|kk: int| 0 <= kk < out@.len() implies result_agrees(#[trigger] out@[kk], produced[kk]) by {
                        if kk < old_out.len() {
                            assert(out@[kk] == old_out[kk]);
                        }
                    }
                }
            },
            None => {
                let ghost old_out = out@;
                out.push(Err(()));
                proof {
                    assert(lex_from(s, i as int) == seq![Lexeme::Error] + lex_from(s, i + m));
                    assert(produced + lex_from(s, i as int) =~= produced.push(Lexeme::Error) + lex_from(s, i + m));
                    produced = produced.push(Lexeme::Error);
                    assert forall|kk: int| 0 <= kk < out@.len() implies result_agrees(#[trigger] out@[kk], produced[kk]) by {
                        if kk < old_out.len() {
                            assert(out@[kk] == old_out[kk]);
                        }
                    }
                }
            },
        }
        i = i + m;
    }
    assert(lex_from(s, i as int) =~= Seq::<Lexeme>::empty());
    assert(produced + Seq::<Lexeme>::empty() =~= produced);
    out
}
} // verus!
