//! What holds of every run of the scanner, stated over the model of one step
//! that `Lexer::next_token` guarantees.
use vstd::prelude::*;

use crate::lexer::{
    digits_end, ident_end, is_digit, is_ident_char, is_whitespace,
    skip_whitespace, token_end, token_kind, token_start, token_text,
};
use crate::token::TokenType;

verus! {

/// The cursor after `n` calls of `next_token` from cursor `p`.
pub open spec fn cursor_after(s: Seq<char>, p: int, n: nat) -> int
    decreases n,
{
    if n == 0 {
        p
    } else {
        cursor_after(s, token_end(s, p), (n - 1) as nat)
    }
}

/// The whitespace skipped before the token read from cursor `p`.
pub open spec fn gap(s: Seq<char>, p: int) -> Seq<char> {
    s.subrange(p, token_start(s, p))
}

pub open spec fn all_whitespace(w: Seq<char>) -> bool {
    forall|i: int| 0 <= i < w.len() ==> is_whitespace(#[trigger] w[i])
}

/// The gaps and token texts of `n` calls from cursor `p`, joined in order.
pub open spec fn rebuilt(s: Seq<char>, p: int, n: nat) -> Seq<char>
    decreases n,
{
    if n == 0 {
        Seq::empty()
    } else {
        gap(s, p) + token_text(s, p) + rebuilt(s, token_end(s, p), (n - 1) as nat)
    }
}

proof fn lemma_skip_whitespace(s: Seq<char>, p: int)
    requires
        0 <= p <= s.len(),
    ensures
        p <= skip_whitespace(s, p) <= s.len(),
        forall|i: int| p <= i < skip_whitespace(s, p) ==> is_whitespace(#[trigger] s[i]),
        skip_whitespace(s, p) < s.len() ==> !is_whitespace(s[skip_whitespace(s, p)]),
    decreases s.len() - p,
{
    if p < s.len() && is_whitespace(s[p]) {
        lemma_skip_whitespace(s, p + 1);
    }
}

proof fn lemma_ident_end(s: Seq<char>, p: int)
    requires
        0 <= p <= s.len(),
    ensures
        p <= ident_end(s, p) <= s.len(),
        p < s.len() && is_ident_char(s[p]) ==> p < ident_end(s, p),
    decreases s.len() - p,
{
    if p < s.len() && is_ident_char(s[p]) {
        lemma_ident_end(s, p + 1);
    }
}

proof fn lemma_digits_end(s: Seq<char>, p: int)
    requires
        0 <= p <= s.len(),
    ensures
        p <= digits_end(s, p) <= s.len(),
        p < s.len() && is_digit(s[p]) ==> p < digits_end(s, p),
    decreases s.len() - p,
{
    if p < s.len() && is_digit(s[p]) {
        lemma_digits_end(s, p + 1);
    }
}

/// One call of `next_token` from a cursor `p` within the source: it skips only
/// whitespace, then reads a token that lies within the source; the token is the
/// end of input exactly when nothing but whitespace was left, and otherwise its
/// text is not empty, so the cursor moves on.
pub proof fn lemma_one_step(s: Seq<char>, p: int)
    requires
        0 <= p <= s.len(),
    ensures
        p <= token_start(s, p) <= token_end(s, p) <= s.len(),
        all_whitespace(gap(s, p)),
        (token_kind(s, p) == TokenType::EOF) == (token_start(s, p) == s.len()),
        token_kind(s, p) == TokenType::EOF ==> token_end(s, p) == s.len() && token_text(
            s,
            p,
        ).len() == 0,
        token_kind(s, p) != TokenType::EOF ==> token_start(s, p) < token_end(s, p)
            && !is_whitespace(s[token_start(s, p)]),
{
    lemma_skip_whitespace(s, p);
    let q = token_start(s, p);
    if q < s.len() {
        lemma_ident_end(s, q);
        lemma_digits_end(s, q);
    }
    assert forall|i: int| 0 <= i < gap(s, p).len() implies is_whitespace(
        #[trigger] gap(s, p)[i],
    ) by {
        assert(gap(s, p)[i] == s[p + i]);
    }
}

/// Once the source is used up, every call gives the end-of-input token with
/// empty text and leaves the cursor where it is.
pub proof fn lemma_end_of_input_is_stable(s: Seq<char>)
    ensures
        token_kind(s, s.len() as int) == TokenType::EOF,
        token_text(s, s.len() as int) == Seq::<char>::empty(),
        token_end(s, s.len() as int) == s.len(),
{
    assert(token_text(s, s.len() as int) =~= Seq::<char>::empty());
}

proof fn lemma_cursor_progress(s: Seq<char>, p: int, n: nat)
    requires
        0 <= p <= s.len(),
    ensures
        p <= cursor_after(s, p, n) <= s.len(),
        cursor_after(s, p, n) >= p + n || cursor_after(s, p, n) == s.len(),
    decreases n,
{
    if n > 0 {
        lemma_one_step(s, p);
        lemma_cursor_progress(s, token_end(s, p), (n - 1) as nat);
    }
}

/// Scanning always ends: from any cursor `p` within the source, at most
/// `len - p` calls bring the cursor to the end of the source, and from then on
/// every call gives the end-of-input token.
pub proof fn lemma_scanning_ends(s: Seq<char>, p: int, n: nat)
    requires
        0 <= p <= s.len(),
        n >= s.len() - p,
    ensures
        cursor_after(s, p, n) == s.len(),
        token_kind(s, cursor_after(s, p, n)) == TokenType::EOF,
        token_end(s, cursor_after(s, p, n)) == cursor_after(s, p, n),
{
    lemma_cursor_progress(s, p, n);
    lemma_end_of_input_is_stable(s);
}

/// Every character from the cursor on belongs to exactly one whitespace gap or
/// one token: the gaps and token texts of `n` calls, joined in order, are the
/// source from `p` to the cursor after them, and every gap is whitespace alone.
/// Once the calls reach the end of input, they rebuild the rest of the source.
pub proof fn lemma_tokens_cover_source(s: Seq<char>, p: int, n: nat)
    requires
        0 <= p <= s.len(),
    ensures
        rebuilt(s, p, n) == s.subrange(p, cursor_after(s, p, n)),
        forall|k: nat| k < n ==> all_whitespace(#[trigger] gap(s, cursor_after(s, p, k))),
        n >= s.len() - p ==> rebuilt(s, p, n) == s.subrange(p, s.len() as int),
    decreases n,
{
    lemma_cursor_progress(s, p, n);
    if n > 0 {
        let e = token_end(s, p);
        lemma_one_step(s, p);
        lemma_tokens_cover_source(s, e, (n - 1) as nat);
        lemma_cursor_progress(s, e, (n - 1) as nat);
        let c = cursor_after(s, p, n);
        assert(s.subrange(p, c) =~= gap(s, p) + token_text(s, p) + s.subrange(e, c));
        assert forall|k: nat| k < n implies all_whitespace(
            #[trigger] gap(s, cursor_after(s, p, k)),
        ) by {
            if k > 0 {
                assert(cursor_after(s, p, k) == cursor_after(s, e, (k - 1) as nat));
            }
        }
    } else {
        assert(s.subrange(p, p) =~= Seq::<char>::empty());
    }
    if n >= s.len() - p {
        lemma_scanning_ends(s, p, n);
    }
}

} // verus!
