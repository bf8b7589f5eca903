use s502_as::ast::Mnemonic;
use s502_as::lexer::{lex_number, tokenize, Literal, SpannedToken, Token, TokenKind};

fn kinds(source: &str) -> Vec<Token> {
    tokenize(source).into_iter().map(|spanned| spanned.token).collect()
}

#[test]
fn keywords_in_any_case() {
    assert_eq!(
        kinds("adc ADC Adc a X y"),
        vec![Token::Adc, Token::Adc, Token::Adc, Token::A, Token::X, Token::Y]
    );
}

#[test]
fn longer_words_are_identifiers() {
    assert_eq!(
        kinds("adcx ab mac1 a_b"),
        vec![
            Token::Ident("adcx".to_string()),
            Token::Ident("ab".to_string()),
            Token::Ident("mac1".to_string()),
            Token::Ident("a_b".to_string()),
        ]
    );
}

#[test]
fn punctuation_and_end_of_line() {
    assert_eq!(
        kinds("! . , # ( ) < >\n"),
        vec![
            Token::Global,
            Token::Period,
            Token::Comma,
            Token::Immediate,
            Token::LParen,
            Token::RParen,
            Token::LAngle,
            Token::RAngle,
            Token::Eol,
        ]
    );
}

#[test]
fn spans_are_byte_offsets() {
    assert_eq!(
        tokenize("lda  #$10\n"),
        vec![
            SpannedToken { token: Token::Lda, span: 0..3 },
            SpannedToken { token: Token::Immediate, span: 5..6 },
            SpannedToken { token: Token::Literal(Literal::Byte(0x10)), span: 6..9 },
            SpannedToken { token: Token::Eol, span: 9..10 },
        ]
    );
}

#[test]
fn comment_takes_its_line_end() {
    assert_eq!(kinds("* a comment\nnop\n"), vec![Token::Nop, Token::Eol]);
    assert_eq!(kinds("nop * rest\nclc"), vec![Token::Nop, Token::Clc]);
}

#[test]
fn comment_without_line_end_is_an_error() {
    assert_eq!(
        tokenize("nop\n* open"),
        vec![
            SpannedToken { token: Token::Nop, span: 0..3 },
            SpannedToken { token: Token::Eol, span: 3..4 },
            SpannedToken { token: Token::Error, span: 4..10 },
        ]
    );
}

#[test]
fn string_keeps_its_escapes() {
    assert_eq!(
        kinds("\"a\\\"b\\\\\" \"\\f\\i\\n\\0\\t\""),
        vec![
            Token::Literal(Literal::String("a\\\"b\\\\".to_string())),
            Token::Literal(Literal::String("\\f\\i\\n\\0\\t".to_string())),
        ]
    );
}

#[test]
fn open_string_is_an_error() {
    assert_eq!(
        tokenize("\"abc"),
        vec![SpannedToken { token: Token::Error, span: 0..4 }]
    );
    assert_eq!(
        tokenize("\"a\\q\""),
        vec![
            SpannedToken { token: Token::Error, span: 0..2 },
            SpannedToken { token: Token::Error, span: 2..3 },
            SpannedToken { token: Token::Ident("q".to_string()), span: 3..4 },
            SpannedToken { token: Token::Error, span: 4..5 },
        ]
    );
}

#[test]
fn string_may_hold_any_text() {
    assert_eq!(
        tokenize("\"h\u{e9}\""),
        vec![SpannedToken {
            token: Token::Literal(Literal::String("h\u{e9}".to_string())),
            span: 0..5
        }]
    );
}

#[test]
fn stray_characters_are_errors() {
    assert_eq!(
        tokenize("~ \u{e9} % _"),
        vec![
            SpannedToken { token: Token::Error, span: 0..1 },
            SpannedToken { token: Token::Error, span: 2..4 },
            SpannedToken { token: Token::Error, span: 5..6 },
            SpannedToken { token: Token::Error, span: 7..8 },
        ]
    );
}

#[test]
fn number_words_and_bytes() {
    assert_eq!(lex_number(b"255"), Some(Literal::Byte(255)));
    assert_eq!(lex_number(b"0255"), Some(Literal::Word(255)));
    assert_eq!(lex_number(b"65535"), Some(Literal::Word(65535)));
    assert_eq!(lex_number(b"65536"), None);
    assert_eq!(lex_number(b"$ff"), Some(Literal::Byte(0xff)));
    assert_eq!(lex_number(b"$0ff"), Some(Literal::Word(0xff)));
    assert_eq!(lex_number(b"$fg"), None);
    assert_eq!(lex_number(b"%1111_1111"), Some(Literal::Byte(0xff)));
    assert_eq!(lex_number(b"@377"), Some(Literal::Byte(0xff)));
    assert_eq!(lex_number(b"@400"), Some(Literal::Word(0x100)));
    assert_eq!(lex_number(b"@777777"), None);
    assert_eq!(lex_number(b"1_0"), Some(Literal::Byte(10)));
}

#[test]
fn typo_in_number_spoils_it() {
    assert_eq!(kinds("$FS"), vec![Token::Error]);
}

#[test]
fn tokens_as_diagnostics_print_them() {
    assert_eq!(Token::Adc.to_string(), "`adc`");
    assert_eq!(Token::Sct.to_string(), "`sct`");
    assert_eq!(Token::A.to_string(), "`A`");
    assert_eq!(Token::X.to_string(), "`X`");
    assert_eq!(Token::Y.to_string(), "`Y`");
    assert_eq!(Token::Global.to_string(), "`!`");
    assert_eq!(Token::Period.to_string(), "`.`");
    assert_eq!(Token::Comma.to_string(), "`,`");
    assert_eq!(Token::Immediate.to_string(), "`#`");
    assert_eq!(Token::LParen.to_string(), "`(`");
    assert_eq!(Token::RParen.to_string(), "`)`");
    assert_eq!(Token::LAngle.to_string(), "`<`");
    assert_eq!(Token::RAngle.to_string(), "`>`");
    assert_eq!(Token::Literal(Literal::Byte(7)).to_string(), "byte `7`");
    assert_eq!(Token::Literal(Literal::Word(40000)).to_string(), "word `40000`");
    assert_eq!(
        Token::Literal(Literal::String("hi".to_string())).to_string(),
        "`\"hi\"`"
    );
    assert_eq!(Token::Ident("loop".to_string()).to_string(), "`loop`");
    assert_eq!(Token::Eol.to_string(), "`<end of line>`");
    assert_eq!(Token::Error.to_string(), "`UNRECOGNIZED`");
}

#[test]
fn token_kinds_and_mnemonics() {
    assert_eq!(Token::Cmp.kind(), TokenKind::Mnemonic(Mnemonic::Cmp));
    assert_eq!(Token::Literal(Literal::Word(3)).kind(), TokenKind::Word(3));
    assert_eq!(Mnemonic::try_from(&Token::Tya), Ok(Mnemonic::Tya));
    assert_eq!(Mnemonic::try_from(&Token::A), Err(()));
    assert_eq!(Token::from_mnemonic(Mnemonic::Jsr), Token::Jsr);
    assert_eq!(Mnemonic::Jsr.to_string(), "jsr");
}

#[test]
fn lexer_reports_spans() {
    let source = "  ldx #2".to_string();
    let mut lexer = Token::lexer(&source);
    assert_eq!(lexer.next(), Some(Token::Ldx));
    assert_eq!(lexer.span(), 2..5);
    assert_eq!(lexer.next(), Some(Token::Immediate));
    assert_eq!(lexer.span(), 6..7);
    assert_eq!(lexer.next(), Some(Token::Literal(Literal::Byte(2))));
    assert_eq!(lexer.span(), 7..8);
    assert_eq!(lexer.next(), None);
    assert_eq!(lexer.next(), None);
}
