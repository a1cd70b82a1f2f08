use monkey::lexer::Lexer;
use monkey::token::{Token, TokenType};

/// Every token of `input`, up to and including the first end-of-input token.
fn scan_all(input: &str) -> Vec<(TokenType, String)> {
    let mut l = Lexer::new(input);
    let mut out = Vec::new();
    for _ in 0..input.chars().count() + 2 {
        let t = l.next_token();
        let done = t.typ == TokenType::EOF;
        out.push((t.typ, t.literal));
        if done {
            return out;
        }
    }
    panic!("no end-of-input token for {:?}", input);
}

fn pairs(v: &[(TokenType, &str)]) -> Vec<(TokenType, String)> {
    v.iter().map(|(t, s)| (*t, s.to_string())).collect()
}

#[test]
fn empty_input_gives_end_of_input_forever() {
    let mut l = Lexer::new("");
    for _ in 0..5 {
        let t = l.next_token();
        assert_eq!(t.typ, TokenType::EOF);
        assert_eq!(t.literal, "");
    }
}

#[test]
fn end_of_input_repeats_after_tokens() {
    let mut l = Lexer::new("a + 1  \n");
    let mut n = 0;
    while l.next_token().typ != TokenType::EOF {
        n += 1;
    }
    assert_eq!(n, 3);
    for _ in 0..4 {
        let t = l.next_token();
        assert_eq!(t.typ, TokenType::EOF);
        assert_eq!(t.literal, "");
    }
}

#[test]
fn whitespace_only_input() {
    assert_eq!(scan_all(" \t\r\n "), pairs(&[(TokenType::EOF, "")]));
}

#[test]
fn texts_rebuild_input_modulo_whitespace() {
    let input = "let  x=\t(a!=b)\n{ @ 12 }";
    let texts: Vec<String> = scan_all(input).into_iter().map(|(_, s)| s).collect();
    let joined: String = texts.concat();
    let squeezed: String = input.chars().filter(|c| !c.is_whitespace()).collect();
    assert_eq!(joined, squeezed);
}

#[test]
fn digits_do_not_continue_identifiers() {
    assert_eq!(
        scan_all("foo123"),
        pairs(&[(TokenType::Ident, "foo"), (TokenType::Int, "123"), (TokenType::EOF, "")])
    );
}

#[test]
fn double_equals_is_one_token() {
    assert_eq!(scan_all("=="), pairs(&[(TokenType::Eq, "=="), (TokenType::EOF, "")]));
}

#[test]
fn assign_then_identifier() {
    assert_eq!(
        scan_all("=a"),
        pairs(&[(TokenType::Assign, "="), (TokenType::Ident, "a"), (TokenType::EOF, "")])
    );
}

#[test]
fn bang_equals_and_lone_bang() {
    assert_eq!(
        scan_all("!=!"),
        pairs(&[(TokenType::NotEq, "!="), (TokenType::Bang, "!"), (TokenType::EOF, "")])
    );
}

#[test]
fn assign_at_end_and_split_by_space() {
    assert_eq!(
        scan_all("= ="),
        pairs(&[(TokenType::Assign, "="), (TokenType::Assign, "="), (TokenType::EOF, "")])
    );
    assert_eq!(scan_all("="), pairs(&[(TokenType::Assign, "="), (TokenType::EOF, "")]));
}

#[test]
fn keyword_let() {
    assert_eq!(scan_all("let"), pairs(&[(TokenType::Let, "let"), (TokenType::EOF, "")]));
}

#[test]
fn keyword_needs_whole_word() {
    assert_eq!(scan_all("letx"), pairs(&[(TokenType::Ident, "letx"), (TokenType::EOF, "")]));
}

#[test]
fn all_keywords() {
    assert_eq!(
        scan_all("fn let true false if else return"),
        pairs(&[
            (TokenType::Function, "fn"),
            (TokenType::Let, "let"),
            (TokenType::True, "true"),
            (TokenType::False, "false"),
            (TokenType::If, "if"),
            (TokenType::Else, "else"),
            (TokenType::Return, "return"),
            (TokenType::EOF, ""),
        ])
    );
}

#[test]
fn let_statement() {
    assert_eq!(
        scan_all("let five = 5;"),
        pairs(&[
            (TokenType::Let, "let"),
            (TokenType::Ident, "five"),
            (TokenType::Assign, "="),
            (TokenType::Int, "5"),
            (TokenType::Semicolon, ";"),
            (TokenType::EOF, ""),
        ])
    );
}

#[test]
fn illegal_character_does_not_stop_scanning() {
    assert_eq!(scan_all("@"), pairs(&[(TokenType::Illegal, "@"), (TokenType::EOF, "")]));
    assert_eq!(
        scan_all("#$1"),
        pairs(&[
            (TokenType::Illegal, "#"),
            (TokenType::Illegal, "$"),
            (TokenType::Int, "1"),
            (TokenType::EOF, ""),
        ])
    );
}

#[test]
fn every_single_character_operator() {
    assert_eq!(
        scan_all("=+-!/*<>;,(){}"),
        pairs(&[
            (TokenType::Assign, "="),
            (TokenType::Plus, "+"),
            (TokenType::Minus, "-"),
            (TokenType::Bang, "!"),
            (TokenType::Slash, "/"),
            (TokenType::Asterisk, "*"),
            (TokenType::Lt, "<"),
            (TokenType::Gt, ">"),
            (TokenType::Semicolon, ";"),
            (TokenType::Comma, ","),
            (TokenType::Lparen, "("),
            (TokenType::Rparen, ")"),
            (TokenType::Lbrace, "{"),
            (TokenType::Rbrace, "}"),
            (TokenType::EOF, ""),
        ])
    );
}

#[test]
fn underscores_and_unicode_letters_form_identifiers() {
    assert_eq!(
        scan_all("_a_b héllo 京都"),
        pairs(&[
            (TokenType::Ident, "_a_b"),
            (TokenType::Ident, "héllo"),
            (TokenType::Ident, "京都"),
            (TokenType::EOF, ""),
        ])
    );
}

#[test]
fn only_decimal_digits_form_integers() {
    assert_eq!(
        scan_all("0042½"),
        pairs(&[(TokenType::Int, "0042"), (TokenType::Illegal, "½"), (TokenType::EOF, "")])
    );
}

#[test]
fn read_identifier_off_a_letter_reads_nothing() {
    let mut l = Lexer::new("9a");
    assert_eq!(l.read_identifier(), "");
    let t = l.next_token();
    assert_eq!(t.typ, TokenType::Int);
    assert_eq!(t.literal, "9");
}

#[test]
fn token_constructors() {
    let t: Token = Token::new(TokenType::Plus, '+');
    assert_eq!((t.typ, t.literal.as_str()), (TokenType::Plus, "+"));
    let t = Token::new_ident(String::from("return"));
    assert_eq!((t.typ, t.literal.as_str()), (TokenType::Return, "return"));
    let t = Token::new_ident(String::from("returns"));
    assert_eq!((t.typ, t.literal.as_str()), (TokenType::Ident, "returns"));
    let t = Token::new_eq();
    assert_eq!((t.typ, t.literal.as_str()), (TokenType::Eq, "=="));
    let t = Token::new_not_eq();
    assert_eq!((t.typ, t.literal.as_str()), (TokenType::NotEq, "!="));
    let t = Token::new_int(String::from("77"));
    assert_eq!((t.typ, t.literal.as_str()), (TokenType::Int, "77"));
}
