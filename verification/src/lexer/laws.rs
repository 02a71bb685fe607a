use vstd::prelude::*;
use crate::lexer::spec::{Pat, is_ws, is_ws_word, lex, lex_from, lexeme_of, longest_match, longest_viable, word_pat};
use crate::lexer::lemmas::{lemma_longest_match, lemma_ws_words};

verus! {

/// Matching from a position looks only at the text from that position on.
proof fn lemma_match_shift(pre: Seq<char>, s: Seq<char>, i: int, n: nat)
    requires
        0 <= i,
        i + n <= s.len(),
    ensures
        longest_match(pre + s, pre.len() + i, n) == longest_match(s, i, n),
        longest_viable(pre + s, pre.len() + i, n) == longest_viable(s, i, n),
    decreases n,
{
    let t = pre + s;
    if n > 0 {
        assert(t.subrange(pre.len() + i, pre.len() + i + n) =~= s.subrange(i, i + n));
        lemma_match_shift(pre, s, i, (n - 1) as nat);
    }
}

/// Lexing from a position looks only at the text from that position on.
proof fn lemma_lex_shift(pre: Seq<char>, s: Seq<char>, i: int)
    requires
        0 <= i,
    ensures
        lex_from(pre + s, pre.len() + i) == lex_from(s, i),
    decreases s.len() - i,
{
    let t = pre + s;
    let j = pre.len() + i;
    if i < s.len() {
        let n = (s.len() - i) as nat;
        assert(t.len() - j == n);
        lemma_match_shift(pre, s, i, n);
        let m = longest_match(s, i, n);
        let v = longest_viable(s, i, n);
        if m > 0 {
            if i + m <= s.len() {
                assert(t.subrange(j, j + m) =~= s.subrange(i, i + m));
                lemma_lex_shift(pre, s, i + m);
            }
        } else {
            let e: int = if 0 < v <= n { v as int } else { 1 };
            lemma_lex_shift(pre, s, i + e);
        }
    }
}

/// A run of white space from `i` up to `e`, where the run ends, is skipped as one.
proof fn lemma_skip_run(s: Seq<char>, i: int, e: int)
    requires
        0 <= i < e <= s.len(),
        forall|j: int| i <= j < e ==> is_ws(#[trigger] s[j]),
        e == s.len() || !is_ws(s[e]),
    ensures
        lex_from(s, i) == lex_from(s, e),
{
    let n = (s.len() - i) as nat;
    let w = s.subrange(i, e);
    assert(is_ws_word(w));
    lemma_ws_words(w);
    assert forall|k: int| e - i < k <= n implies word_pat(#[trigger] s.subrange(i, i + k)) is None by {
        let x = s.subrange(i, i + k);
        assert(x[0] == s[i]);
        lemma_ws_words(x);
        assert(x[e - i] == s[e]);
    }
    assert(s.subrange(i, i + (e - i)) =~= w);
    lemma_longest_match(s, i, n, (e - i) as nat);
}

/// The end of the run of white space that starts at `i`.
spec fn blank_end(s: Seq<char>, i: int) -> int
    decreases s.len() - i,
{
    if 0 <= i < s.len() && is_ws(s[i]) {
        blank_end(s, i + 1)
    } else {
        i
    }
}

proof fn lemma_blank_end(s: Seq<char>, i: int)
    requires
        0 <= i <= s.len(),
    ensures
        i <= blank_end(s, i) <= s.len(),
        forall|j: int| i <= j < blank_end(s, i) ==> is_ws(#[trigger] s[j]),
        blank_end(s, i) == s.len() || !is_ws(s[blank_end(s, i)]),
    decreases s.len() - i,
{
    if i < s.len() && is_ws(s[i]) {
        lemma_blank_end(s, i + 1);
    }
}

/// White space before a text changes nothing: `lex(ws + s)` is `lex(s)`.
pub proof fn law_leading_blank_ignored(ws: Seq<char>, s: Seq<char>)
    requires
        forall|j: int| 0 <= j < ws.len() ==> is_ws(#[trigger] ws[j]),
    ensures
        lex(ws + s) == lex(s),
{
    let t = ws + s;
    if ws.len() == 0 {
        assert(t =~= s);
    } else {
        lemma_blank_end(s, 0);
        let b = blank_end(s, 0);
        let e = ws.len() + b;
        assert forall|j: int| 0 <= j < e implies is_ws(#[trigger] t[j]) by {
            if j >= ws.len() {
                assert(t[j] == s[j - ws.len()]);
            }
        }
        if e < t.len() {
            assert(t[e] == s[b]);
        }
        lemma_skip_run(t, 0, e);
        lemma_lex_shift(ws, s, b);
        if b > 0 {
            lemma_skip_run(s, 0, b);
        }
    }
}

/// A text of white space alone has no tokens.
pub proof fn law_blank_text_has_no_tokens(ws: Seq<char>)
    requires
        forall|j: int| 0 <= j < ws.len() ==> is_ws(#[trigger] ws[j]),
    ensures
        lex(ws) == Seq::<crate::lexer::spec::Lexeme>::empty(),
{
    law_leading_blank_ignored(ws, Seq::empty());
    assert(ws + Seq::<char>::empty() =~= ws);
}

/// A text that is one word of the grammar (not white space or a comment) lexes as
/// that one word: a keyword as its keyword, a name as a name, a number as a number.
pub proof fn law_single_word(w: Seq<char>, p: Pat)
    requires
        word_pat(w) == Some(p),
        p != Pat::Skip,
    ensures
        lex(w) == seq![lexeme_of(p, w)],
{
    assert(w.subrange(0, w.len() as int) =~= w);
    crate::lexer::lemmas::lemma_first_char(w);
    assert(longest_match(w, 0, w.len()) == w.len());
    assert(lex_from(w, w.len() as int) == Seq::<crate::lexer::spec::Lexeme>::empty());
    assert(seq![lexeme_of(p, w)] + Seq::<crate::lexer::spec::Lexeme>::empty() =~= seq![lexeme_of(p, w)]);
}

} // verus!

verus! {

/// Different texts never give the same operator or keyword: the token that a text
/// lexes to as a whole determines the text.
pub proof fn law_fixed_tokens_distinct(w1: Seq<char>, w2: Seq<char>)
    requires
        crate::lexer::spec::fixed_token(w1) is Some,
        crate::lexer::spec::fixed_token(w1) == crate::lexer::spec::fixed_token(w2),
    ensures
        w1 == w2,
{
    assert(w1.len() == w2.len());
    assert(w1 =~= w2);
}

} // verus!
