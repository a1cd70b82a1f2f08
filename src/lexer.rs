use vstd::prelude::*;

use crate::token::{keyword_kind, text_of, Token, TokenType};

verus! {

/// What `char::is_alphabetic` returns for `c`: whether it has Unicode's Alphabetic property.
pub uninterp spec fn alphabetic(c: char) -> bool;

/// Relies on `char::is_alphabetic`, which depends on the character alone.
#[verifier::external_body]
fn is_alphabetic(c: char) -> (r: bool)
    ensures
        r == alphabetic(c),
{
    c.is_alphabetic()
}

/// Whether `ch` is a character that starts or continues an identifier.
fn is_letter(ch: Option<char>) -> (r: bool)
    ensures
        r == (ch is Some && is_ident_char(ch->0)),
{
    if let Some(c) = ch {
        return is_alphabetic(c) || c == '_';
    }
    false
}

/// Whether `ch` is a whitespace character.
fn is_blank(ch: Option<char>) -> (r: bool)
    ensures
        r == (ch is Some && is_whitespace(ch->0)),
{
    match ch {
        Some(c) => c == ' ' || c == '\t' || c == '\n' || c == '\r',
        None => false,
    }
}

/// Whether `ch` is a decimal digit.
fn is_numeral(ch: Option<char>) -> (r: bool)
    ensures
        r == (ch is Some && is_digit(ch->0)),
{
    match ch {
        Some(c) => '0' <= c && c <= '9',
        None => false,
    }
}

/// Insignificant whitespace: space, tab, newline, carriage return.
pub open spec fn is_whitespace(c: char) -> bool {
    c == ' ' || c == '\t' || c == '\n' || c == '\r'
}

/// A decimal digit.
pub open spec fn is_digit(c: char) -> bool {
    '0' <= c && c <= '9'
}

/// A character that starts or continues an identifier.
pub open spec fn is_ident_char(c: char) -> bool {
    alphabetic(c) || c == '_'
}

/// The character at index `p` of `s`, if there is one.
pub open spec fn char_at(s: Seq<char>, p: int) -> Option<char> {
    if 0 <= p < s.len() {
        Some(s[p])
    } else {
        None
    }
}

/// The first index at or after `p` that does not hold whitespace (or the end of `s`).
pub open spec fn skip_whitespace(s: Seq<char>, p: int) -> int
    decreases s.len() - p,
{
    if p < 0 || p >= s.len() || !is_whitespace(s[p]) {
        p
    } else {
        skip_whitespace(s, p + 1)
    }
}

/// The end of the maximal run of identifier characters that starts at `p`.
pub open spec fn ident_end(s: Seq<char>, p: int) -> int
    decreases s.len() - p,
{
    if p < 0 || p >= s.len() || !is_ident_char(s[p]) {
        p
    } else {
        ident_end(s, p + 1)
    }
}

/// The end of the maximal run of decimal digits that starts at `p`.
pub open spec fn digits_end(s: Seq<char>, p: int) -> int
    decreases s.len() - p,
{
    if p < 0 || p >= s.len() || !is_digit(s[p]) {
        p
    } else {
        digits_end(s, p + 1)
    }
}

/// The kind of a one-character operator or delimiter.
pub open spec fn operator_kind(c: char) -> Option<TokenType> {
    match c {
        '=' => Some(TokenType::Assign),
        '+' => Some(TokenType::Plus),
        '-' => Some(TokenType::Minus),
        '!' => Some(TokenType::Bang),
        '/' => Some(TokenType::Slash),
        '*' => Some(TokenType::Asterisk),
        '<' => Some(TokenType::Lt),
        '>' => Some(TokenType::Gt),
        ';' => Some(TokenType::Semicolon),
        ',' => Some(TokenType::Comma),
        '(' => Some(TokenType::Lparen),
        ')' => Some(TokenType::Rparen),
        '{' => Some(TokenType::Lbrace),
        '}' => Some(TokenType::Rbrace),
        _ => None,
    }
}

/// Whether a two-character operator (`==` or `!=`) starts at `q`.
pub open spec fn two_char_at(s: Seq<char>, q: int) -> bool {
    0 <= q && q + 1 < s.len() && (s[q] == '=' || s[q] == '!') && s[q + 1] == '='
}

/// Where the token that starts at `q` ends.
pub open spec fn lexeme_end(s: Seq<char>, q: int) -> int {
    if q < 0 || q >= s.len() {
        q
    } else if two_char_at(s, q) {
        q + 2
    } else if operator_kind(s[q]) is Some {
        q + 1
    } else if is_ident_char(s[q]) {
        ident_end(s, q)
    } else if is_digit(s[q]) {
        digits_end(s, q)
    } else {
        q + 1
    }
}

/// The kind of the token that starts at `q`.
pub open spec fn lexeme_kind(s: Seq<char>, q: int) -> TokenType {
    if q < 0 || q >= s.len() {
        TokenType::EOF
    } else if two_char_at(s, q) {
        if s[q] == '=' {
            TokenType::Eq
        } else {
            TokenType::NotEq
        }
    } else if operator_kind(s[q]) is Some {
        operator_kind(s[q])->0
    } else if is_ident_char(s[q]) {
        keyword_kind(s.subrange(q, ident_end(s, q)))
    } else if is_digit(s[q]) {
        TokenType::Int
    } else {
        TokenType::Illegal
    }
}

/// Where the next token read from cursor `p` starts: past any whitespace.
pub open spec fn token_start(s: Seq<char>, p: int) -> int {
    skip_whitespace(s, p)
}

/// Where the next token read from cursor `p` ends: the cursor after reading it.
pub open spec fn token_end(s: Seq<char>, p: int) -> int {
    lexeme_end(s, token_start(s, p))
}

/// The kind of the next token read from cursor `p`.
pub open spec fn token_kind(s: Seq<char>, p: int) -> TokenType {
    lexeme_kind(s, token_start(s, p))
}

/// The text of the next token read from cursor `p`.
pub open spec fn token_text(s: Seq<char>, p: int) -> Seq<char> {
    s.subrange(token_start(s, p), token_end(s, p))
}

/// A scanner over a text, decoded once into characters, with a cursor into it.
pub struct Lexer {
    input: Vec<char>,
    position: usize,
    ch: Option<char>,
}

impl Lexer {
    /// The text being scanned.
    pub closed spec fn source(&self) -> Seq<char> {
        self.input@
    }

    /// The index of the character under examination; the length of the source at its end.
    pub closed spec fn cursor(&self) -> int {
        self.position as int
    }

    /// The cursor lies within the source, and `ch` caches the character under it.
    pub closed spec fn wf(&self) -> bool {
        &&& self.position <= self.input@.len()
        &&& self.ch == char_at(self.input@, self.position as int)
    }

    /// A scanner at the first character of `input`.
    pub fn new(input: &str) -> (r: Lexer)
        ensures
            r.wf(),
            r.source() == input@,
            r.cursor() == 0,
    {
        let mut chars: Vec<char> = Vec::new();
        for c in it: input.chars()
            invariant
                chars@ == it.seq().take(it.index() as int),
        {
            chars.push(c);
        }
        assert(chars@ =~= input@);
        let ch = if chars.len() > 0 {
            Some(chars[0])
        } else {
            None
        };
        Lexer { input: chars, position: 0, ch: ch }
    }

    /// Produces the next token and moves the cursor past it; at the end of the
    /// source, the end-of-input token with empty text, forever.
    pub fn next_token(&mut self) -> (t: Token)
        requires
            old(self).wf(),
        ensures
            final(self).wf(),
            final(self).source() == old(self).source(),
            final(self).cursor() == token_end(old(self).source(), old(self).cursor()),
            t.typ == token_kind(old(self).source(), old(self).cursor()),
            t.literal@ == token_text(old(self).source(), old(self).cursor()),
    {
        self.skip_white_space();
        let ghost s = self.source();
        let ghost q = self.cursor();
        let ch = match self.ch {
            Some(c) => c,
            None => {
                assert(s.subrange(q, q) =~= Seq::<char>::empty());
                return Token { typ: TokenType::EOF, literal: String::new() };
            },
        };
        let t = match ch {
            '=' => {
                if let Some('=') = self.peek_char() {
                    self.read_char();
                    Token::new_eq()
                } else {
                    Token::new(TokenType::Assign, ch)
                }
            },
            '+' => Token::new(TokenType::Plus, ch),
            '-' => Token::new(TokenType::Minus, ch),
            '!' => {
                if let Some('=') = self.peek_char() {
                    self.read_char();
                    Token::new_not_eq()
                } else {
                    Token::new(TokenType::Bang, ch)
                }
            },
            '/' => Token::new(TokenType::Slash, ch),
            '*' => Token::new(TokenType::Asterisk, ch),
            '<' => Token::new(TokenType::Lt, ch),
            '>' => Token::new(TokenType::Gt, ch),
            ';' => Token::new(TokenType::Semicolon, ch),
            ',' => Token::new(TokenType::Comma, ch),
            '(' => Token::new(TokenType::Lparen, ch),
            ')' => Token::new(TokenType::Rparen, ch),
            '{' => Token::new(TokenType::Lbrace, ch),
            '}' => Token::new(TokenType::Rbrace, ch),
            _ => {
                if is_alphabetic(ch) || ch == '_' {
                    return Token::new_ident(self.read_identifier());
                } else if '0' <= ch && ch <= '9' {
                    return Token::new_int(self.read_number());
                } else {
                    Token::new(TokenType::Illegal, ch)
                }
            },
        };
        self.read_char();
        proof {
            if two_char_at(s, q) {
                assert(s.subrange(q, q + 2) =~= seq![s[q], s[q + 1]]);
            } else {
                assert(s.subrange(q, q + 1) =~= seq![s[q]]);
            }
        }
        t
    }

    /// Moves the cursor one character on, unless it is already at the end.
    fn read_char(&mut self)
        requires
            old(self).wf(),
        ensures
            final(self).wf(),
            final(self).source() == old(self).source(),
            final(self).cursor() == if old(self).cursor() < old(self).source().len() {
                old(self).cursor() + 1
            } else {
                old(self).cursor()
            },
    {
        if self.position < self.input.len() {
            self.position = self.position + 1;
            self.ch = if self.position < self.input.len() {
                Some(self.input[self.position])
            } else {
                None
            };
        }
    }

    /// The character after the one under examination, if there is one.
    fn peek_char(&self) -> (r: Option<char>)
        requires
            self.wf(),
        ensures
            r == char_at(self.source(), self.cursor() + 1),
    {
        if self.input.len() - self.position > 1 {
            Some(self.input[self.position + 1])
        } else {
            None
        }
    }

    /// Moves the cursor past any whitespace.
    fn skip_white_space(&mut self)
        requires
            old(self).wf(),
        ensures
            final(self).wf(),
            final(self).source() == old(self).source(),
            final(self).cursor() == skip_whitespace(old(self).source(), old(self).cursor()),
    {
        while is_blank(self.ch)
            invariant
                self.wf(),
                self.source() == old(self).source(),
                old(self).cursor() <= self.cursor(),
                skip_whitespace(self.source(), self.cursor()) == skip_whitespace(
                    old(self).source(),
                    old(self).cursor(),
                ),
            decreases self.source().len() - self.cursor(),
        {
            self.read_char();
        }
    }

    /// Reads the maximal run of identifier characters at the cursor, and moves past it.
    pub fn read_identifier(&mut self) -> (r: String)
        requires
            old(self).wf(),
        ensures
            final(self).wf(),
            final(self).source() == old(self).source(),
            final(self).cursor() == ident_end(old(self).source(), old(self).cursor()),
            r@ == old(self).source().subrange(old(self).cursor(), final(self).cursor()),
    {
        let start = self.position;
        while is_letter(self.ch)
            invariant
                self.wf(),
                self.source() == old(self).source(),
                start == old(self).cursor() <= self.cursor(),
                ident_end(self.source(), self.cursor()) == ident_end(
                    old(self).source(),
                    old(self).cursor(),
                ),
            decreases self.source().len() - self.cursor(),
        {
            self.read_char();
        }
        text_of(&self.input[start..self.position])
    }

    /// Reads the maximal run of decimal digits at the cursor, and moves past it.
    fn read_number(&mut self) -> (r: String)
        requires
            old(self).wf(),
        ensures
            final(self).wf(),
            final(self).source() == old(self).source(),
            final(self).cursor() == digits_end(old(self).source(), old(self).cursor()),
            r@ == old(self).source().subrange(old(self).cursor(), final(self).cursor()),
    {
        let start = self.position;
        while is_numeral(self.ch)
            invariant
                self.wf(),
                self.source() == old(self).source(),
                start == old(self).cursor() <= self.cursor(),
                digits_end(self.source(), self.cursor()) == digits_end(
                    old(self).source(),
                    old(self).cursor(),
                ),
            decreases self.source().len() - self.cursor(),
        {
            self.read_char();
        }
        text_of(&self.input[start..self.position])
    }
}

} // verus!
