//! The lexer's token stream.

use reqcraft::lexer::{Lexer, TokenType};
use reqcraft::numfmt::dec_string;

fn kinds(input: &str) -> Vec<(TokenType, String, usize)> {
    let mut lx = Lexer::new(input);
    let mut out = Vec::new();
    loop {
        let t = lx.next_token();
        let eof = t.token_type == TokenType::Eof;
        out.push((t.token_type, t.literal, t.line));
        if eof {
            break;
        }
    }
    out
}

#[test]
fn structural_tokens_and_lines() {
    let ts = kinds("{ }\n( ) ? @");
    let expected = vec![
        (TokenType::LBrace, "{", 1),
        (TokenType::RBrace, "}", 1),
        (TokenType::LParen, "(", 2),
        (TokenType::RParen, ")", 2),
        (TokenType::Question, "?", 2),
        (TokenType::At, "@", 2),
        (TokenType::Eof, "", 2),
    ];
    for (got, want) in ts.iter().zip(expected.iter()) {
        assert_eq!(got.0, want.0);
        assert_eq!(got.1, want.1);
        assert_eq!(got.2, want.2);
    }
}

#[test]
fn strings_numbers_identifiers() {
    let ts = kinds("name \"hello world\" 'single' -12.5 12.3.4 a_b/c:d.e-f,g");
    assert_eq!(ts[0], (TokenType::Ident, "name".to_string(), 1));
    assert_eq!(ts[1], (TokenType::String, "hello world".to_string(), 1));
    assert_eq!(ts[2], (TokenType::String, "single".to_string(), 1));
    assert_eq!(ts[3], (TokenType::Number, "-12.5".to_string(), 1));
    // a second dot ends the number, and the rest lexes as an identifier
    assert_eq!(ts[4], (TokenType::Number, "12.3".to_string(), 1));
    assert_eq!(ts[5], (TokenType::Ident, ".4".to_string(), 1));
    assert_eq!(ts[6], (TokenType::Ident, "a_b/c:d.e-f,g".to_string(), 1));
}

#[test]
fn comments_and_doc_comments() {
    let ts = kinds("x // note  \n/**\n * Line one\n * Line two\n */ y");
    assert_eq!(ts[0].0, TokenType::Ident);
    assert_eq!(ts[1], (TokenType::Comment, "note".to_string(), 1));
    assert_eq!(ts[2], (TokenType::DocComment, "Line one Line two".to_string(), 2));
    assert_eq!(ts[3], (TokenType::Ident, "y".to_string(), 5));
}

#[test]
fn unterminated_string_reads_to_end() {
    let ts = kinds("\"abc");
    assert_eq!(ts[0], (TokenType::String, "abc".to_string(), 1));
    assert_eq!(ts[1].0, TokenType::Eof);
}

#[test]
fn stray_punctuation_becomes_a_single_char_token() {
    let ts = kinds("# %");
    assert_eq!(ts[0], (TokenType::Ident, "#".to_string(), 1));
    assert_eq!(ts[1], (TokenType::Ident, "%".to_string(), 1));
    assert_eq!(ts[2].0, TokenType::Eof);
}

#[test]
fn eof_repeats_forever() {
    let mut lx = Lexer::new("a");
    assert_eq!(lx.next_token().token_type, TokenType::Ident);
    assert_eq!(lx.next_token().token_type, TokenType::Eof);
    assert_eq!(lx.next_token().token_type, TokenType::Eof);
}

#[test]
fn decimal_rendering() {
    assert_eq!(dec_string(0), "0");
    assert_eq!(dec_string(7), "7");
    assert_eq!(dec_string(40960), "40960");
    assert_eq!(dec_string(u64::MAX), "18446744073709551615");
}
