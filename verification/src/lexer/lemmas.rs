use vstd::prelude::*;
use crate::lexer::token::Token;
use crate::lexer::spec::{
    Pat, closes_comment, digits_value, fixed_token, float_split, is_block_comment, is_digit, is_float_word, is_ident_word,
    is_ident_char, is_ident_start, is_int_word, is_interp_word, is_line_comment, is_lower, is_str_word, is_ws,
    is_ws_word, keyword, longest_match, longest_viable, op1, op2, opens_interp, viable, word_pat,
};

verus! {

/// `longest_match` is the largest length that matches.
pub proof fn lemma_longest_match(s: Seq<char>, i: int, n: nat, m: nat)
    requires
        0 <= i,
        i + n <= s.len(),
        m <= n,
        m > 0 ==> word_pat(s.subrange(i, i + m)) is Some,
        forall|k: int| m < k <= n ==> word_pat(#[trigger] s.subrange(i, i + k)) is None,
    ensures
        longest_match(s, i, n) == m,
    decreases n,
{
    if n > m {
        assert(word_pat(s.subrange(i, i + n)) is None);
        lemma_longest_match(s, i, (n - 1) as nat, m);
    } else if n == 0 {
    } else {
        assert(m == n);
    }
}

/// `longest_viable` is the largest length that starts a word.
pub proof fn lemma_longest_viable(s: Seq<char>, i: int, n: nat, v: nat)
    requires
        0 <= i,
        i + n <= s.len(),
        v <= n,
        v > 0 ==> viable(s.subrange(i, i + v)),
        forall|k: int| v < k <= n ==> !viable(#[trigger] s.subrange(i, i + k)),
    ensures
        longest_viable(s, i, n) == v,
    decreases n,
{
    if n > v {
        assert(!viable(s.subrange(i, i + n)));
        lemma_longest_viable(s, i, (n - 1) as nat, v);
    }
}

/// A keyword is made of lower-case letters.
pub proof fn lemma_keyword_lower(w: Seq<char>)
    requires
        keyword(w) is Some,
    ensures
        w.len() >= 2,
        forall|j: int| 0 <= j < w.len() ==> is_lower(#[trigger] w[j]),
{
}

/// What a word that matches a fixed token looks like.
pub proof fn lemma_fixed_shape(w: Seq<char>)
    requires
        fixed_token(w) is Some,
    ensures
        (w.len() == 1 && op1(w[0]) is Some) || (w.len() == 2 && op2(w[0], w[1]) is Some) || (w.len() == 3
            && w[0] == '.' && w[1] == '.' && w[2] == '=') || keyword(w) is Some,
{
}

/// The characters that start an operator.
pub open spec fn is_op_start(c: char) -> bool {
    op1(c) is Some || c == '|' || c == ':'
}

pub proof fn lemma_op2_start(c: char, d: char)
    requires
        op2(c, d) is Some,
    ensures
        is_op_start(c),
        c != '/' || d == '=',
{
}

/// Every word of the grammar starts with one of these characters.
pub proof fn lemma_first_char(w: Seq<char>)
    requires
        word_pat(w) is Some,
    ensures
        w.len() >= 1,
        is_ident_start(w[0]) || is_digit(w[0]) || w[0] == '"' || is_ws(w[0]) || is_op_start(w[0]),
{
    if fixed_token(w) is Some {
        lemma_fixed_shape(w);
        if keyword(w) is Some {
            lemma_keyword_lower(w);
            assert(is_lower(w[0]));
        } else if w.len() == 2 {
            lemma_op2_start(w[0], w[1]);
        }
    } else if is_float_word(w) {
        let p = choose|p: int| float_split(w, p);
        assert(is_digit(w[0]));
    }
}

/// A word that starts like a name matches as a keyword or a name, and only when
/// all of it is made of name characters.
pub proof fn lemma_ident_words(w: Seq<char>)
    requires
        w.len() >= 1,
        is_ident_start(w[0]),
    ensures
        word_pat(w) is Some ==> is_ident_word(w),
        is_ident_word(w) ==> word_pat(w) == if keyword(w) is Some {
            Some(Pat::Fixed(keyword(w).unwrap()))
        } else {
            Some(Pat::Ident)
        },
{
    if fixed_token(w) is Some {
        lemma_fixed_shape(w);
        if keyword(w) is Some {
            lemma_keyword_lower(w);
            assert forall|j: int| 0 <= j < w.len() implies is_ident_char(#[trigger] w[j]) by {
                assert(is_lower(w[j]));
            }
        } else if w.len() == 2 {
            lemma_op2_start(w[0], w[1]);
        }
    }
    if is_float_word(w) {
        let p = choose|p: int| float_split(w, p);
        assert(is_digit(w[0]));
    }
}


/// A word that starts with a digit matches only as an integer or a decimal.
pub proof fn lemma_digit_words(w: Seq<char>)
    requires
        w.len() >= 1,
        is_digit(w[0]),
    ensures
        word_pat(w) is Some ==> is_int_word(w) || is_float_word(w),
        is_int_word(w) ==> word_pat(w) == Some(Pat::Int),
        !is_int_word(w) && is_float_word(w) ==> word_pat(w) == Some(Pat::Float),
{
    if fixed_token(w) is Some {
        lemma_fixed_shape(w);
        if keyword(w) is Some {
            lemma_keyword_lower(w);
            assert(is_lower(w[0]));
        } else if w.len() == 2 {
            lemma_op2_start(w[0], w[1]);
        }
    }
}

/// In a word whose first `d` characters are digits and whose character at `d` is
/// not, a decimal point can only be at `d`.
pub proof fn lemma_float_dot(w: Seq<char>, d: int, p: int)
    requires
        0 <= d < w.len(),
        !is_digit(w[d]),
        forall|j: int| 0 <= j < d ==> is_digit(#[trigger] w[j]),
        float_split(w, p),
    ensures
        p == d,
{
    if p < d {
        assert(is_digit(w[p]));
    } else if p > d {
        assert(is_digit(w[d]));
    }
}

/// A word that starts with white space matches only as white space.
pub proof fn lemma_ws_words(w: Seq<char>)
    requires
        w.len() >= 1,
        is_ws(w[0]),
    ensures
        word_pat(w) is Some ==> is_ws_word(w),
        is_ws_word(w) ==> word_pat(w) == Some(Pat::Skip),
{
    if fixed_token(w) is Some {
        lemma_fixed_shape(w);
        if keyword(w) is Some {
            lemma_keyword_lower(w);
            assert(is_lower(w[0]));
        } else if w.len() == 2 {
            lemma_op2_start(w[0], w[1]);
        }
    }
    if is_float_word(w) {
        let p = choose|p: int| float_split(w, p);
        assert(is_digit(w[0]));
    }
}

/// A word that starts with `/` matches only as `/`, `/=` or a comment.
pub proof fn lemma_slash_words(w: Seq<char>)
    requires
        w.len() >= 1,
        w[0] == '/',
    ensures
        word_pat(w) is Some ==> w.len() == 1 || (w.len() == 2 && w[1] == '=') || is_line_comment(w)
            || is_block_comment(w),
        w.len() == 1 ==> word_pat(w) == Some(Pat::Fixed(Token::Slash)),
        w.len() == 2 && w[1] == '=' ==> word_pat(w) == Some(Pat::Fixed(Token::SlashAssign)),
        is_line_comment(w) ==> word_pat(w) == Some(Pat::Skip),
        is_block_comment(w) ==> word_pat(w) == Some(Pat::Skip),
{
    if fixed_token(w) is Some {
        lemma_fixed_shape(w);
        if keyword(w) is Some {
            lemma_keyword_lower(w);
            assert(is_lower(w[0]));
        } else if w.len() == 2 {
            lemma_op2_start(w[0], w[1]);
        }
    }
    if is_float_word(w) {
        let p = choose|p: int| float_split(w, p);
        assert(is_digit(w[0]));
    }
    if is_line_comment(w) && w.len() == 2 {
        assert(op2(w[0], w[1]) is None);
    }
    if is_block_comment(w) && w.len() == 2 {
        assert(false);
    }
}

/// A word that starts with `"` matches only as a string.
pub proof fn lemma_quote_words(w: Seq<char>)
    requires
        w.len() >= 1,
        w[0] == '"',
    ensures
        word_pat(w) is Some ==> is_str_word(w) || is_interp_word(w),
        is_str_word(w) ==> word_pat(w) == Some(Pat::Str),
        !is_str_word(w) && is_interp_word(w) ==> word_pat(w) == Some(Pat::Interp),
{
    if fixed_token(w) is Some {
        lemma_fixed_shape(w);
        if keyword(w) is Some {
            lemma_keyword_lower(w);
            assert(is_lower(w[0]));
        } else if w.len() == 2 {
            lemma_op2_start(w[0], w[1]);
        }
    }
    if is_float_word(w) {
        let p = choose|p: int| float_split(w, p);
        assert(is_digit(w[0]));
    }
}

/// A word that starts with an operator character matches only as an operator.
pub proof fn lemma_op_words(w: Seq<char>)
    requires
        w.len() >= 1,
        !is_ident_start(w[0]),
        !is_digit(w[0]),
        !is_ws(w[0]),
        w[0] != '"',
        w[0] != '/',
    ensures
        word_pat(w) is Some ==> fixed_token(w) is Some,
        word_pat(w) is Some ==> (w.len() == 1 && op1(w[0]) is Some) || (w.len() == 2 && op2(w[0], w[1]) is Some)
            || (w.len() == 3 && w[0] == '.' && w[1] == '.' && w[2] == '='),
        fixed_token(w) is Some ==> word_pat(w) == Some(Pat::Fixed(fixed_token(w).unwrap())),
{
    if fixed_token(w) is Some {
        lemma_fixed_shape(w);
        if keyword(w) is Some {
            lemma_keyword_lower(w);
            assert(is_lower(w[0]));
        }
    }
    if is_float_word(w) {
        let p = choose|p: int| float_split(w, p);
        assert(is_digit(w[0]));
    }
}

/// The first character of a word extended on the right stays the same.
pub proof fn lemma_extend_first(w: Seq<char>, x: Seq<char>)
    requires
        w.len() >= 1,
    ensures
        (w + x)[0] == w[0],
        (w + x).len() == w.len() + x.len(),
        forall|j: int| 0 <= j < w.len() ==> #[trigger] (w + x)[j] == w[j],
{
}

/// Whether a `$` occurs in `s[a..b]`.
pub open spec fn dollar_in(s: Seq<char>, a: int, b: int) -> bool {
    exists|j: int| a <= j < b && #[trigger] s[j] == '$'
}

/// Whether `${` starts in `s[a..b]`.
pub open spec fn open_in(s: Seq<char>, a: int, b: int) -> bool {
    exists|j: int| a <= j < b && #[trigger] opens_interp(s, j)
}

pub proof fn lemma_in_step(s: Seq<char>, a: int, q: int)
    requires
        0 <= a <= q < s.len(),
    ensures
        dollar_in(s, a, q + 1) == (dollar_in(s, a, q) || s[q] == '$'),
        open_in(s, a, q + 1) == (open_in(s, a, q) || (q + 1 < s.len() && s[q] == '$' && s[q + 1] == '{')),
{
    if s[q] == '$' {
        assert(s[q] == '$');
    }
    if q + 1 < s.len() && s[q] == '$' && s[q + 1] == '{' {
        assert(opens_interp(s, q));
    }
    if dollar_in(s, a, q + 1) && !dollar_in(s, a, q) {
        let j = choose|j: int| a <= j < q + 1 && #[trigger] s[j] == '$';
        assert(j == q);
    }
    if open_in(s, a, q + 1) && !open_in(s, a, q) {
        let j = choose|j: int| a <= j < q + 1 && #[trigger] opens_interp(s, j);
        assert(j == q);
    }
}

/// Every start `"x` where `x` holds no quote can grow into an interpolated string.
pub proof fn lemma_quote_prefix_viable(s: Seq<char>, i: int, q: int)
    requires
        0 <= i < q <= s.len(),
        s[i] == '"',
        forall|j: int| i + 1 <= j < q ==> #[trigger] s[j] != '"',
    ensures
        forall|kk: int| 1 <= kk <= q - i ==> viable(#[trigger] s.subrange(i, i + kk)),
{
    assert forall|kk: int| 1 <= kk <= q - i implies viable(#[trigger] s.subrange(i, i + kk)) by {
        let w2 = s.subrange(i, i + kk);
        let x = seq!['$', '{', '"'];
        let y = w2 + x;
        assert(y[kk] == '$' && y[kk + 1] == '{');
        assert(opens_interp(y, kk));
        assert forall|j: int| 1 <= j < y.len() - 1 implies #[trigger] y[j] != '"' by {
            if j < kk {
                assert(y[j] == s[i + j]);
            }
        }
        assert(is_interp_word(y));
        lemma_quote_words(y);
        assert(word_pat(y) is Some);
    }
}

/// Past the closing quote no string matches.
pub proof fn lemma_quote_longer_none(s: Seq<char>, i: int, q: int)
    requires
        0 <= i < q < s.len(),
        s[i] == '"',
        s[q] == '"',
    ensures
        forall|kk: int| q + 1 - i < kk <= s.len() - i ==> word_pat(#[trigger] s.subrange(i, i + kk)) is None,
{
    assert forall|kk: int| q + 1 - i < kk <= s.len() - i implies word_pat(#[trigger] s.subrange(i, i + kk)) is None by {
        let w2 = s.subrange(i, i + kk);
        lemma_quote_words(w2);
        assert(w2[q - i] == '"');
    }
}

/// Up to the first closing quote: a plain string when no `$` occurs, an
/// interpolated one when `${` does.
pub proof fn lemma_quote_match(s: Seq<char>, i: int, q: int)
    requires
        0 <= i < q < s.len(),
        s[i] == '"',
        s[q] == '"',
        forall|j: int| i + 1 <= j < q ==> #[trigger] s[j] != '"',
        !dollar_in(s, i + 1, q) || open_in(s, i + 1, q),
    ensures
        word_pat(s.subrange(i, q + 1)) == if !dollar_in(s, i + 1, q) {
            Some(Pat::Str)
        } else {
            Some(Pat::Interp)
        },
{
    let w = s.subrange(i, q + 1);
    lemma_quote_words(w);
    if !dollar_in(s, i + 1, q) {
        assert forall|j: int| 1 <= j < w.len() - 1 implies #[trigger] w[j] != '"' && w[j] != '$' by {
            assert(w[j] == s[i + j]);
            if w[j] == '$' {
                assert(s[i + j] == '$');
            }
        }
        assert(is_str_word(w));
    } else {
        let jj = choose|j: int| i + 1 <= j < q && #[trigger] opens_interp(s, j);
        assert(s[jj + 1] != '"');
        assert(opens_interp(w, jj - i));
        assert forall|j: int| 1 <= j < w.len() - 1 implies #[trigger] w[j] != '"' by {
            assert(w[j] == s[i + j]);
        }
        assert(is_interp_word(w));
        let jd = choose|j: int| i + 1 <= j < q && #[trigger] s[j] == '$';
        assert(w[jd - i] == '$');
        assert(!is_str_word(w));
    }
}

/// A quoted text with a `$` but no `${` matches nothing; its start without the
/// closing quote is the longest start of a word.
pub proof fn lemma_quote_mismatch(s: Seq<char>, i: int, q: int)
    requires
        0 <= i < q < s.len(),
        s[i] == '"',
        s[q] == '"',
        forall|j: int| i + 1 <= j < q ==> #[trigger] s[j] != '"',
        dollar_in(s, i + 1, q),
        !open_in(s, i + 1, q),
    ensures
        forall|kk: int| 0 < kk <= s.len() - i ==> word_pat(#[trigger] s.subrange(i, i + kk)) is None,
        forall|kk: int| q - i < kk <= s.len() - i ==> !viable(#[trigger] s.subrange(i, i + kk)),
        forall|kk: int| 1 <= kk <= q - i ==> viable(#[trigger] s.subrange(i, i + kk)),
{
    lemma_quote_prefix_viable(s, i, q);
    lemma_quote_longer_none(s, i, q);
    let m = q + 1 - i;
    assert(word_pat(s.subrange(i, i + m)) is None) by {
        let w2 = s.subrange(i, i + m);
        lemma_quote_words(w2);
        let jd = choose|j: int| i + 1 <= j < q && #[trigger] s[j] == '$';
        assert(w2[jd - i] == '$');
        if is_interp_word(w2) {
            let jj = choose|j: int| 1 <= j && j + 1 < w2.len() - 1 && opens_interp(w2, j);
            assert(opens_interp(s, i + jj));
        }
    }
    assert forall|kk: int| 0 < kk <= s.len() - i implies word_pat(#[trigger] s.subrange(i, i + kk)) is None by {
        let w2 = s.subrange(i, i + kk);
        lemma_quote_words(w2);
        if kk <= q - i && kk >= 2 {
            assert(w2[kk - 1] == s[i + kk - 1]);
        }
    }
    assert forall|kk: int| q - i < kk <= s.len() - i implies !viable(#[trigger] s.subrange(i, i + kk)) by {
        let w2 = s.subrange(i, i + kk);
        if viable(w2) {
            let x = choose|x: Seq<char>| #[trigger] word_pat(w2 + x) is Some;
            let y = w2 + x;
            lemma_extend_first(w2, x);
            lemma_quote_words(y);
            assert(y[q - i] == '"');
            if y.len() - 1 == q - i {
                assert(y =~= s.subrange(i, i + m));
            }
        }
    }
}

/// A quote that is never closed: nothing matches, and every start is viable.
pub proof fn lemma_quote_unclosed(s: Seq<char>, i: int)
    requires
        0 <= i < s.len(),
        s[i] == '"',
        forall|j: int| i + 1 <= j < s.len() ==> #[trigger] s[j] != '"',
    ensures
        forall|kk: int| 0 < kk <= s.len() - i ==> word_pat(#[trigger] s.subrange(i, i + kk)) is None,
        forall|kk: int| 1 <= kk <= s.len() - i ==> viable(#[trigger] s.subrange(i, i + kk)),
{
    lemma_quote_prefix_viable(s, i, s.len() as int);
    assert forall|kk: int| 0 < kk <= s.len() - i implies word_pat(#[trigger] s.subrange(i, i + kk)) is None by {
        let w2 = s.subrange(i, i + kk);
        lemma_quote_words(w2);
        if kk >= 2 {
            assert(w2[kk - 1] == s[i + kk - 1]);
        }
    }
}

/// The value of a prefix of digits is at most that of the whole.
pub proof fn lemma_digits_mono(w: Seq<char>, k: int)
    requires
        0 <= k <= w.len(),
    ensures
        digits_value(w.subrange(0, k)) <= digits_value(w),
    decreases w.len(),
{
    if k < w.len() {
        lemma_digits_mono(w.drop_last(), k);
        assert(w.drop_last().subrange(0, k) =~= w.subrange(0, k));
    } else {
        assert(w.subrange(0, k) =~= w);
    }
}
} // verus!
