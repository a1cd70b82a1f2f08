use vstd::prelude::*;

verus! {

/// The closed set of token categories.
#[derive(Debug, Clone, Copy, PartialEq, Eq, Structural)]
pub enum TokenType {
    Illegal,
    EOF,
    // identifiers and literals
    Ident,
    Int,
    // operators
    Assign,
    Plus,
    Minus,
    Bang,
    Asterisk,
    Slash,
    Lt,
    Gt,
    Eq,
    NotEq,
    // delimiters
    Comma,
    Semicolon,
    Lparen,
    Rparen,
    Lbrace,
    Rbrace,
    // keywords
    Function,
    Let,
    True,
    False,
    If,
    Else,
    Return,
}

/// The kind of a scanned word: the keyword it spells, or `Ident`.
pub open spec fn keyword_kind(w: Seq<char>) -> TokenType {
    if w == seq!['f', 'n'] {
        TokenType::Function
    } else if w == seq!['l', 'e', 't'] {
        TokenType::Let
    } else if w == seq!['t', 'r', 'u', 'e'] {
        TokenType::True
    } else if w == seq!['f', 'a', 'l', 's', 'e'] {
        TokenType::False
    } else if w == seq!['i', 'f'] {
        TokenType::If
    } else if w == seq!['e', 'l', 's', 'e'] {
        TokenType::Else
    } else if w == seq!['r', 'e', 't', 'u', 'r', 'n'] {
        TokenType::Return
    } else {
        TokenType::Ident
    }
}

/// Whether `w` spells exactly the characters `k`.
fn spells(w: &str, k: &[char]) -> (r: bool)
    ensures
        r == (w@ == k@),
{
    let n = w.unicode_len();
    if n != k.len() {
        return false;
    }
    let mut i: usize = 0;
    while i < n
        invariant
            n == w@.len(),
            n == k@.len(),
            i <= n,
            forall|j: int| 0 <= j < i ==> w@[j] == k@[j],
        decreases n - i,
    {
        if w.get_char(i) != k[i] {
            return false;
        }
        i = i + 1;
    }
    assert(w@ =~= k@);
    true
}

fn look_up_ident(ident: &str) -> (r: TokenType)
    ensures
        r == keyword_kind(ident@),
{
    if spells(ident, &['f', 'n']) {
        TokenType::Function
    } else if spells(ident, &['l', 'e', 't']) {
        TokenType::Let
    } else if spells(ident, &['t', 'r', 'u', 'e']) {
        TokenType::True
    } else if spells(ident, &['f', 'a', 'l', 's', 'e']) {
        TokenType::False
    } else if spells(ident, &['i', 'f']) {
        TokenType::If
    } else if spells(ident, &['e', 'l', 's', 'e']) {
        TokenType::Else
    } else if spells(ident, &['r', 'e', 't', 'u', 'r', 'n']) {
        TokenType::Return
    } else {
        TokenType::Ident
    }
}

/// A classified lexical unit: its kind and the exact source text it came from.
#[derive(Debug)]
pub struct Token {
    pub typ: TokenType,
    pub literal: String,
}

/// Relies on `String`'s `FromIterator<char>`: the string holds exactly the given characters.
#[verifier::external_body]
pub(crate) fn text_of(cs: &[char]) -> (r: String)
    ensures
        r@ == cs@,
{
    cs.iter().collect()
}

impl Token {
    /// A one-character token of kind `typ`.
    pub fn new(typ: TokenType, ch: char) -> (r: Token)
        ensures
            r.typ == typ,
            r.literal@ == seq![ch],
    {
        let lit = text_of(&[ch]);
        Token { typ: typ, literal: lit }
    }

    /// A word token: a keyword when `s` spells one, otherwise an identifier.
    pub fn new_ident(s: String) -> (r: Token)
        ensures
            r.typ == keyword_kind(s@),
            r.literal@ == s@,
    {
        Token { typ: look_up_ident(s.as_str()), literal: s }
    }

    /// The `==` token.
    pub fn new_eq() -> (r: Token)
        ensures
            r.typ == TokenType::Eq,
            r.literal@ == seq!['=', '='],
    {
        Token { typ: TokenType::Eq, literal: text_of(&['=', '=']) }
    }

    /// The `!=` token.
    pub fn new_not_eq() -> (r: Token)
        ensures
            r.typ == TokenType::NotEq,
            r.literal@ == seq!['!', '='],
    {
        Token { typ: TokenType::NotEq, literal: text_of(&['!', '=']) }
    }

    /// An integer-literal token with text `s`.
    pub fn new_int(s: String) -> (r: Token)
        ensures
            r.typ == TokenType::Int,
            r.literal@ == s@,
    {
        Token { typ: TokenType::Int, literal: s }
    }
}

} // verus!
