use s502_as::lexer::{Literal, Token};

#[test]
fn lexes_binary_numbers() {
    let source = "%0 %10101 %000000111 %1011000010001111".to_string();
    let mut lexer = Token::lexer(&source);

    assert_eq!(lexer.next().unwrap(), Token::Literal(Literal::Byte(0b0)));
    assert_eq!(
        lexer.next().unwrap(),
        Token::Literal(Literal::Byte(0b10101))
    );
    assert_eq!(lexer.next().unwrap(), Token::Literal(Literal::Word(0b111)));
    assert_eq!(
        lexer.next().unwrap(),
        Token::Literal(Literal::Word(0b1011_0000_1000_1111))
    );
}

#[test]
fn lexes_octal_numbers() {
    let source = "@0 @273 @00101 @473".to_string();
    let mut lexer = Token::lexer(&source);

    assert_eq!(lexer.next().unwrap(), Token::Literal(Literal::Byte(0o0)));
    assert_eq!(lexer.next().unwrap(), Token::Literal(Literal::Byte(0o273)));
    assert_eq!(lexer.next().unwrap(), Token::Literal(Literal::Word(0o101)));
    assert_eq!(lexer.next().unwrap(), Token::Literal(Literal::Word(0o473)));
}

#[test]
fn lexes_decimal_numbers() {
    let source = "0 2 255 256 65535".to_string();
    let mut lexer = Token::lexer(&source);

    assert_eq!(lexer.next().unwrap(), Token::Literal(Literal::Byte(0)));
    assert_eq!(lexer.next().unwrap(), Token::Literal(Literal::Byte(2)));
    assert_eq!(lexer.next().unwrap(), Token::Literal(Literal::Byte(255)));
    assert_eq!(lexer.next().unwrap(), Token::Literal(Literal::Word(256)));
    assert_eq!(lexer.next().unwrap(), Token::Literal(Literal::Word(65535)));
}

#[test]
fn lexes_hex_numbers() {
    let source = "$0 $3D $7F $101 $beef".to_string();
    let mut lexer = Token::lexer(&source);

    assert_eq!(lexer.next().unwrap(), Token::Literal(Literal::Byte(0)));
    assert_eq!(lexer.next().unwrap(), Token::Literal(Literal::Byte(0x3D)));
    assert_eq!(lexer.next().unwrap(), Token::Literal(Literal::Byte(0x7F)));
    assert_eq!(lexer.next().unwrap(), Token::Literal(Literal::Word(0x101)));
    assert_eq!(lexer.next().unwrap(), Token::Literal(Literal::Word(0xbeef)));
}

#[test]
fn rejects_bad_numbers() {
    let source = "%11000100010001000 @401201 000000 $2D3C8".to_string();
    let mut lexer = Token::lexer(&source);

    let mut seen = 0;
    let mut all_errors = true;
    while let Some(token) = lexer.next() {
        seen += 1;
        all_errors = all_errors && token == Token::Error;
    }
    assert!(all_errors);
    assert_eq!(seen, 4);
}

#[test]
fn lexes_string() {
    let source = "\"test\"".to_string();
    let mut lexer = Token::lexer(&source);

    assert_eq!(
        lexer.next().unwrap(),
        Token::Literal(Literal::String("test".to_string()))
    );
}

#[test]
fn lex_binary_0() {
    let source = "%1".to_string();
    let mut lexer = Token::lexer(&source);

    assert_eq!(lexer.next().unwrap(), Token::Literal(Literal::Byte(0b1)));
}

#[test]
fn lex_binary_1() {
    let source = "%0_0000_0001".to_string();
    let mut lexer = Token::lexer(&source);

    assert_eq!(lexer.next().unwrap(), Token::Literal(Literal::Word(0b1)));
}

#[test]
fn lex_binary_2() {
    let source = "%0_0000_0000_0000_0001".to_string();
    let mut lexer = Token::lexer(&source);

    assert_eq!(lexer.next().unwrap(), Token::Error);
}

#[test]
fn lex_binary_3() {
    let source = "%12".to_string();
    let mut lexer = Token::lexer(&source);

    assert_eq!(lexer.next().unwrap(), Token::Error);
}

#[test]
fn lex_octal_0() {
    let source = "@1".to_string();
    let mut lexer = Token::lexer(&source);

    assert_eq!(lexer.next().unwrap(), Token::Literal(Literal::Byte(0o1)));
}

#[test]
fn lex_octal_1() {
    let source = "@0_001".to_string();
    let mut lexer = Token::lexer(&source);

    assert_eq!(lexer.next().unwrap(), Token::Literal(Literal::Word(0b1)));
}

#[test]
fn lex_octal_2() {
    let source = "@700".to_string();
    let mut lexer = Token::lexer(&source);

    assert_eq!(lexer.next().unwrap(), Token::Literal(Literal::Word(0o700)));
}

#[test]
fn lex_octal_3() {
    let source = "@2_101_0010".to_string();
    let mut lexer = Token::lexer(&source);

    assert_eq!(lexer.next().unwrap(), Token::Error);
}

#[test]
fn lex_decimal_0() {
    let source = "1".to_string();
    let mut lexer = Token::lexer(&source);

    assert_eq!(lexer.next().unwrap(), Token::Literal(Literal::Byte(1)));
}

#[test]
fn lex_decimal_1() {
    let source = "1000".to_string();
    let mut lexer = Token::lexer(&source);

    assert_eq!(lexer.next().unwrap(), Token::Literal(Literal::Word(1000)));
}

#[test]
fn lex_decimal_2() {
    let source = "109_000".to_string();
    let mut lexer = Token::lexer(&source);

    assert_eq!(lexer.next().unwrap(), Token::Error);
}

#[test]
fn lex_hex_0() {
    let source = "$A".to_string();
    let mut lexer = Token::lexer(&source);

    assert_eq!(lexer.next().unwrap(), Token::Literal(Literal::Byte(0xA)));
}

#[test]
fn lex_hex_1() {
    let source = "$100".to_string();
    let mut lexer = Token::lexer(&source);

    assert_eq!(lexer.next().unwrap(), Token::Literal(Literal::Word(0x100)));
}

#[test]
fn lex_hex_2() {
    let source = "$1_0000".to_string();
    let mut lexer = Token::lexer(&source);

    assert_eq!(lexer.next().unwrap(), Token::Error);
}

#[test]
fn lex_string() {
    let source = "\"test\"".to_string();
    let mut lexer = Token::lexer(&source);

    assert_eq!(
        lexer.next().unwrap(),
        Token::Literal(Literal::String("test".to_string()))
    );
}
