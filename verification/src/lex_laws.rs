//! Reading a text as tokens, each as long as it goes, can be done in one way only.

use vstd::prelude::*;
use crate::lexer::{
    hex_quote_at, hex_start, is_hex_digit, is_ident_char, is_ident_start, is_word, is_ws, lexed,
    lexed_max, lexed_prefix, prefix_end, punct_text, starts_punct, starts_token, string_close,
    tok_text, token_max, token_ok, trivia_from, two_char_punct, unclosed_string_at, Tok, Token,
};
use crate::text::is_digit;

verus! {

/// The character where a token starts is the first character of its text.
proof fn lemma_first_char(s: Seq<char>, t: Token)
    requires
        token_ok(s, t),
    ensures
        s[t.cstart as int] == tok_text(t.tok)[0],
        tok_text(t.tok).len() == t.cend - t.cstart,
{
    assert(s.subrange(t.cstart as int, t.cend as int)[0] == s[t.cstart as int]);
}

/// The first character of a token tells which kind of token it is.
pub proof fn lemma_token_class(s: Seq<char>, t: Token)
    requires
        token_ok(s, t),
    ensures
        is_ident_start(s[t.cstart as int]) <==> (t.tok is Ident || t.tok is Kw || t.tok is HexStr),
        is_digit(s[t.cstart as int]) <==> (t.tok is Int || t.tok is HexInt || t.tok is Address),
        s[t.cstart as int] == '"' <==> t.tok is Str,
        starts_token(s[t.cstart as int]),
{
    reveal_strlit("hex");
    lemma_first_char(s, t);
    let c = s[t.cstart as int];
    match t.tok {
        Tok::Ident(w) => {
            assert(is_word(w@));
        },
        Tok::Kw(k) => {},
        Tok::Int(d) => {
            assert(is_digit(d@[0]));
        },
        Tok::HexInt(w) => {},
        Tok::Address(w) => {},
        Tok::Str(w) => {
            assert((seq!['"'] + w@ + seq!['"'])[0] == '"');
        },
        Tok::HexStr(w) => {
            assert(("hex"@ + seq!['"'] + w@ + seq!['"'])[0] == 'h');
        },
        Tok::P(p) => {
            assert(punct_text(p)[0] == c);
            assert(starts_punct(c));
        },
    }
}

/// Every character of a word token continues a word, and the character after it does not.
proof fn lemma_word_run(s: Seq<char>, t: Token)
    requires
        token_ok(s, t),
        token_max(s, t),
        t.tok is Ident || t.tok is Kw,
    ensures
        forall|m: int| t.cstart <= m < t.cend ==> is_ident_char(#[trigger] s[m]),
        t.cend == s.len() || !is_ident_char(s[t.cend as int]),
{
    let w = tok_text(t.tok);
    assert(is_word(w));
    assert forall|m: int| t.cstart <= m < t.cend implies is_ident_char(#[trigger] s[m]) by {
        assert(s.subrange(t.cstart as int, t.cend as int)[m - t.cstart] == s[m]);
        if m > t.cstart {
            assert(is_ident_char(w[m - t.cstart]));
        }
    }
}

/// The hexadecimal digits of a hexadecimal literal token run to its end, and no
/// hexadecimal digit follows it.
proof fn lemma_hex_run(s: Seq<char>, t: Token)
    requires
        token_ok(s, t),
        token_max(s, t),
        t.tok is HexInt || t.tok is Address,
    ensures
        hex_start(s, t.cstart as int),
        t.cend >= t.cstart + 3,
        forall|m: int| t.cstart + 2 <= m < t.cend ==> is_hex_digit(#[trigger] s[m]),
        t.cend == s.len() || !is_hex_digit(s[t.cend as int]),
{
    let w = tok_text(t.tok);
    let i = t.cstart as int;
    assert(s.subrange(i, t.cend as int)[0] == s[i]);
    assert(s.subrange(i, t.cend as int)[1] == s[i + 1]);
    assert(s.subrange(i, t.cend as int)[2] == s[i + 2]);
    assert(is_hex_digit(w[2]));
    assert forall|m: int| i + 2 <= m < t.cend implies is_hex_digit(#[trigger] s[m]) by {
        assert(s.subrange(i, t.cend as int)[m - i] == s[m]);
        assert(is_hex_digit(w[m - i]));
    }
}

/// The digits of a decimal token run to its end, and no digit follows it.
proof fn lemma_digit_run(s: Seq<char>, t: Token)
    requires
        token_ok(s, t),
        token_max(s, t),
        t.tok is Int,
    ensures
        forall|m: int| t.cstart <= m < t.cend ==> is_digit(#[trigger] s[m]),
        t.cend == s.len() || !is_digit(s[t.cend as int]),
        !hex_start(s, t.cstart as int),
{
    let w = tok_text(t.tok);
    assert forall|m: int| t.cstart <= m < t.cend implies is_digit(#[trigger] s[m]) by {
        assert(s.subrange(t.cstart as int, t.cend as int)[m - t.cstart] == s[m]);
        assert(is_digit(w[m - t.cstart]));
    }
}

/// `hex"` stands where a hex string token starts, and the token ends at the quote
/// that closes it.
proof fn lemma_hex_string(s: Seq<char>, t: Token)
    requires
        token_ok(s, t),
        t.tok is HexStr,
    ensures
        hex_quote_at(s, t.cstart as int),
{
    reveal_strlit("hex");
    let i = t.cstart as int;
    let w = tok_text(t.tok);
    let sub = s.subrange(i, t.cend as int);
    assert(w.len() >= 5);
    assert(s.subrange(i, i + 3) =~= sub.subrange(0, 3));
    assert(sub.subrange(0, 3) =~= w.subrange(0, 3));
    assert(w.subrange(0, 3) =~= "hex"@);
    assert(sub[3] == s[i + 3]);
    assert(w[3] == '"');
}

/// Two tokens read as long as they go from the same place end at the same place.
pub proof fn lemma_same_end(s: Seq<char>, t1: Token, t2: Token)
    requires
        token_ok(s, t1),
        token_max(s, t1),
        token_ok(s, t2),
        token_max(s, t2),
        t1.cstart == t2.cstart,
    ensures
        t1.cend == t2.cend,
{
    lemma_token_class(s, t1);
    lemma_token_class(s, t2);
    lemma_same_end_ordered(s, t1, t2);
    lemma_same_end_ordered(s, t2, t1);
}

/// Two tokens read as long as they go from the same place: the first does not end
/// before the second.
proof fn lemma_same_end_ordered(s: Seq<char>, t1: Token, t2: Token)
    requires
        token_ok(s, t1),
        token_max(s, t1),
        token_ok(s, t2),
        token_max(s, t2),
        t1.cstart == t2.cstart,
    ensures
        t1.cend >= t2.cend,
{
    lemma_token_class(s, t1);
    lemma_token_class(s, t2);
    let i = t1.cstart as int;
    if t1.cend < t2.cend {
        let j = t1.cend as int;
        if t1.tok is HexStr || t2.tok is HexStr {
            if t1.tok is HexStr {
                lemma_hex_string(s, t1);
            }
            if t2.tok is HexStr {
                lemma_hex_string(s, t2);
            }
        } else if t1.tok is Ident || t1.tok is Kw {
            lemma_word_run(s, t1);
            lemma_word_run(s, t2);
            assert(is_ident_char(s[j]));
        } else if t1.tok is Int {
            lemma_digit_run(s, t1);
            if t2.tok is Int {
                lemma_digit_run(s, t2);
                assert(is_digit(s[j]));
            } else {
                lemma_hex_run(s, t2);
            }
        } else if t1.tok is HexInt || t1.tok is Address {
            lemma_hex_run(s, t1);
            if t2.tok is Int {
                lemma_digit_run(s, t2);
            } else {
                lemma_hex_run(s, t2);
                assert(is_hex_digit(s[j]));
            }
        } else if t1.tok is Str {
        } else {
            lemma_first_char(s, t1);
            lemma_first_char(s, t2);
            let p1 = t1.tok->P_0;
            let p2 = t2.tok->P_0;
            assert(punct_text(p1).len() == 1);
            assert(punct_text(p2).len() == 2);
            assert(s.subrange(i, t2.cend as int)[1] == s[i + 1]);
            assert(punct_text(p2)[0] == s[i] && punct_text(p2)[1] == s[i + 1]);
            assert(two_char_punct(s[i], s[i + 1]));
        }
    }
}

/// A reading of the text in which each token goes as far as it can, so far as it goes,
/// agrees place for place with any complete such reading, and is not longer.
pub proof fn lemma_prefix_aligned(s: Seq<char>, p: Seq<Token>, t: Seq<Token>, n: int)
    requires
        lexed_prefix(s, p),
        lexed_max(s, t),
        0 <= n <= p.len(),
    ensures
        n <= t.len(),
        forall|k: int| 0 <= k < n ==> p[k].cstart == #[trigger] t[k].cstart && p[k].cend == t[k].cend,
    decreases n,
{
    if n > 0 {
        lemma_prefix_aligned(s, p, t, n - 1);
        let k = n - 1;
        assert(token_ok(s, p[k]) && token_max(s, p[k]));
        if k == 0 {
            if t.len() == 0 {
                assert(false);
            }
        } else {
            assert(p[k - 1].cend == t[k - 1].cend);
            assert(trivia_from(s, p[k - 1].cend as int, 0) == Some(p[k].cstart as int));
            if t.len() == k {
                assert(t.last() == t[k - 1]);
                assert(false);
            }
            assert(trivia_from(s, t[k - 1].cend as int, 0) == Some(t[k].cstart as int));
        }
        assert(token_ok(s, t[k]) && token_max(s, t[k]));
        lemma_same_end(s, p[k], t[k]);
    }
}

/// After a reading of part of the text, what follows the whitespace and comments
/// is the next token of any complete reading, or the end of the text.
pub proof fn lemma_prefix_next(s: Seq<char>, p: Seq<Token>, t: Seq<Token>)
    requires
        lexed_prefix(s, p),
        lexed_max(s, t),
    ensures
        p.len() <= t.len(),
        p.len() == t.len() ==> trivia_from(s, prefix_end(p), 0) == Some(s.len() as int),
        p.len() < t.len() ==> trivia_from(s, prefix_end(p), 0) == Some(t[p.len() as int].cstart as int),
{
    lemma_prefix_aligned(s, p, t, p.len() as int);
    if p.len() > 0 {
        let k = p.len() - 1;
        assert(p[k].cend == t[k].cend);
        if p.len() == t.len() {
            assert(t.last() == t[k]);
        }
    }
}

/// Where reading stops after part of the text (a comment that is not closed, a
/// character that starts no token, a string that is not closed), the text has no
/// complete reading.
pub proof fn lemma_no_reading(s: Seq<char>, p: Seq<Token>, i: int)
    requires
        lexed_prefix(s, p),
        trivia_from(s, prefix_end(p), 0) is None || (trivia_from(s, prefix_end(p), 0) == Some(i)
            && 0 <= i < s.len() && (!starts_token(s[i]) || unclosed_string_at(s, i))),
    ensures
        !exists|t: Seq<Token>| lexed_max(s, t),
{
    reveal_strlit("hex");
    if exists|t: Seq<Token>| lexed_max(s, t) {
        let t = choose|t: Seq<Token>| lexed_max(s, t);
        lemma_prefix_next(s, p, t);
        if p.len() < t.len() {
            let n = p.len() as int;
            let tk = t[n];
            assert(token_ok(s, tk) && token_max(s, tk));
            assert(tk.cstart == i);
            lemma_token_class(s, tk);
            if unclosed_string_at(s, i) {
                if hex_quote_at(s, i) {
                    assert(s.subrange(i, i + 3)[0] == s[i]);
                    if tk.tok is HexStr {
                    }
                }
            }
        }
    }
}

/// Whitespace and comments skipped from `i` end at or after `i`.
proof fn lemma_trivia_forward(s: Seq<char>, i: int, mode: int)
    requires
        0 <= i <= s.len(),
        trivia_from(s, i, mode) is Some,
    ensures
        trivia_from(s, i, mode)->0 >= i,
    decreases s.len() - i,
{
    if i < s.len() {
        if mode == 1 {
            if s[i] == '\n' {
                lemma_trivia_forward(s, i + 1, 0);
            } else {
                lemma_trivia_forward(s, i + 1, 1);
            }
        } else if mode == 2 {
            if s[i] == '*' && i + 1 < s.len() && s[i + 1] == '/' {
                lemma_trivia_forward(s, i + 2, 0);
            } else {
                lemma_trivia_forward(s, i + 1, 2);
            }
        } else if is_ws(s[i]) {
            lemma_trivia_forward(s, i + 1, 0);
        } else if s[i] == '/' && i + 1 < s.len() && s[i + 1] == '/' {
            lemma_trivia_forward(s, i + 2, 1);
        } else if s[i] == '/' && i + 1 < s.len() && s[i + 1] == '*' {
            lemma_trivia_forward(s, i + 2, 2);
        }
    }
}

/// Tokens read one after another start no earlier than their index.
proof fn lemma_token_starts(s: Seq<char>, p: Seq<Token>, k: int)
    requires
        lexed_prefix(s, p),
        0 <= k < p.len(),
    ensures
        p[k].cstart >= k,
    decreases k,
{
    if k == 0 {
        lemma_trivia_forward(s, 0, 0);
    } else {
        lemma_token_starts(s, p, k - 1);
        assert(token_ok(s, p[k - 1]));
        lemma_trivia_forward(s, p[k - 1].cend as int, 0);
    }
}

/// A text holds no more tokens than characters.
pub proof fn lemma_token_count(s: Seq<char>, p: Seq<Token>)
    requires
        lexed_prefix(s, p),
    ensures
        p.len() <= s.len(),
{
    if p.len() > 0 {
        lemma_token_starts(s, p, p.len() - 1);
        assert(token_ok(s, p[p.len() - 1]));
    }
}

/// Reading the text with each token as long as it goes gives one reading only: any
/// two such readings have the same tokens at the same places, with the same text.
pub proof fn law_lexing_unique(s: Seq<char>, t1: Seq<Token>, t2: Seq<Token>)
    requires
        lexed_max(s, t1),
        lexed_max(s, t2),
    ensures
        t1.len() == t2.len(),
        forall|k: int|
            0 <= k < t1.len() ==> t1[k].cstart == #[trigger] t2[k].cstart && t1[k].cend == t2[k].cend
                && tok_text(t1[k].tok) == tok_text(t2[k].tok),
{
    assert(lexed_prefix(s, t1));
    assert(lexed_prefix(s, t2));
    lemma_prefix_aligned(s, t1, t2, t1.len() as int);
    lemma_prefix_aligned(s, t2, t1, t2.len() as int);
    assert forall|k: int| 0 <= k < t1.len() implies t1[k].cstart == #[trigger] t2[k].cstart
        && t1[k].cend == t2[k].cend && tok_text(t1[k].tok) == tok_text(t2[k].tok) by {
        assert(token_ok(s, t1[k]));
        assert(token_ok(s, t2[k]));
    }
}

} // verus!
