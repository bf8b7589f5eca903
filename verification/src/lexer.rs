//! The tokenizer: a longest-match scanner over the bytes of the source.

use crate::ast::{find_mnemonic, mnemonic_of_letters, Mnemonic};
use crate::text::{
    ascii_string, ascii_text, copy_range, decimal_bytes, is_ascii_bytes, lemma_decimal_bytes_ascii,
    lower, push_decimal, text_from_bytes, text_of, to_lower,
};
use std::ops::Range;
use vstd::prelude::*;
use vstd::string::{StringExecFns, StringSliceAdditionalSpecFns};

verus! {

/// A literal number or string.
#[derive(Clone, Debug, PartialEq)]
pub enum Literal {
    Byte(u8),
    Word(u16),
    String(String),
}

pub enum LiteralView {
    Byte(u8),
    Word(u16),
    String(Seq<char>),
}

impl DeepView for Literal {
    type V = LiteralView;

    open spec fn deep_view(&self) -> LiteralView {
        match self {
            Literal::Byte(byte) => LiteralView::Byte(*byte),
            Literal::Word(word) => LiteralView::Word(*word),
            Literal::String(string) => LiteralView::String(string@),
        }
    }
}

/// Tokens of the assembly language.
#[derive(Clone, Debug, PartialEq)]
pub enum Token {
    Adc,
    And,
    Asl,
    Bcc,
    Bcs,
    Beq,
    Bit,
    Bmi,
    Bne,
    Bpl,
    Brk,
    Bvc,
    Bvs,
    Clc,
    Cld,
    Cli,
    Clv,
    Cmp,
    Cpx,
    Cpy,
    Dec,
    Dex,
    Dey,
    Eor,
    Inc,
    Inx,
    Iny,
    Jmp,
    Jsr,
    Lda,
    Ldx,
    Ldy,
    Lsr,
    Nop,
    Ora,
    Pha,
    Php,
    Pla,
    Plp,
    Rol,
    Ror,
    Rti,
    Rts,
    Sbc,
    Sec,
    Sed,
    Sei,
    Sta,
    Stx,
    Sty,
    Tax,
    Tay,
    Tsx,
    Txa,
    Txs,
    Tya,
    Dfb,
    Dfw,
    Equ,
    Hlt,
    Inl,
    Org,
    Sct,
    A,
    X,
    Y,
    Global,
    Period,
    Comma,
    Immediate,
    LParen,
    RParen,
    LAngle,
    RAngle,
    Literal(Literal),
    Ident(String),
    Eol,
    Error,
}

/// The model of a token: all mnemonics are one kind of token.
pub enum TokenView {
    Mnemonic(Mnemonic),
    A,
    X,
    Y,
    Global,
    Period,
    Comma,
    Immediate,
    LParen,
    RParen,
    LAngle,
    RAngle,
    Literal(LiteralView),
    Ident(Seq<char>),
    Eol,
    Error,
}

impl DeepView for Token {
    type V = TokenView;

    open spec fn deep_view(&self) -> TokenView {
        match self {
            Token::A => TokenView::A,
            Token::X => TokenView::X,
            Token::Y => TokenView::Y,
            Token::Global => TokenView::Global,
            Token::Period => TokenView::Period,
            Token::Comma => TokenView::Comma,
            Token::Immediate => TokenView::Immediate,
            Token::LParen => TokenView::LParen,
            Token::RParen => TokenView::RParen,
            Token::LAngle => TokenView::LAngle,
            Token::RAngle => TokenView::RAngle,
            Token::Literal(literal) => TokenView::Literal(literal.deep_view()),
            Token::Ident(name) => TokenView::Ident(name@),
            Token::Eol => TokenView::Eol,
            Token::Error => TokenView::Error,
            _ => match self.spec_mnemonic() {
                Some(mnemonic) => TokenView::Mnemonic(mnemonic),
                None => TokenView::Error,
            },
        }
    }
}

/// How diagnostics print a token.
pub open spec fn token_text(token: TokenView) -> Seq<char> {
    match token {
        TokenView::Mnemonic(mnemonic) => "`"@ + ascii_text(mnemonic.name()) + "`"@,
        TokenView::A => "`A`"@,
        TokenView::X => "`X`"@,
        TokenView::Y => "`Y`"@,
        TokenView::Global => "`!`"@,
        TokenView::Period => "`.`"@,
        TokenView::Comma => "`,`"@,
        TokenView::Immediate => "`#`"@,
        TokenView::LParen => "`(`"@,
        TokenView::RParen => "`)`"@,
        TokenView::LAngle => "`<`"@,
        TokenView::RAngle => "`>`"@,
        TokenView::Literal(LiteralView::Byte(byte)) => "byte `"@ + ascii_text(
            decimal_bytes(byte as nat),
        ) + "`"@,
        TokenView::Literal(LiteralView::Word(word)) => "word `"@ + ascii_text(
            decimal_bytes(word as nat),
        ) + "`"@,
        TokenView::Literal(LiteralView::String(string)) => "`\""@ + string + "\"`"@,
        TokenView::Ident(name) => "`"@ + name + "`"@,
        TokenView::Eol => "`<end of line>`"@,
        TokenView::Error => "`UNRECOGNIZED`"@,
    }
}

fn decimal_string(n: u64) -> (text: String)
    ensures
        text@ == ascii_text(decimal_bytes(n as nat)),
{
    let mut bytes: Vec<u8> = Vec::new();
    push_decimal(&mut bytes, n);
    proof {
        lemma_decimal_bytes_ascii(n as nat);
        assert(bytes@ =~= decimal_bytes(n as nat));
    }
    ascii_string(bytes.as_slice())
}

impl Token {
    /// The mnemonic that the token is, if it is one.
    pub open spec fn spec_mnemonic(&self) -> Option<Mnemonic> {
        match self {
            Token::Adc => Some(Mnemonic::Adc),
            Token::And => Some(Mnemonic::And),
            Token::Asl => Some(Mnemonic::Asl),
            Token::Bcc => Some(Mnemonic::Bcc),
            Token::Bcs => Some(Mnemonic::Bcs),
            Token::Beq => Some(Mnemonic::Beq),
            Token::Bit => Some(Mnemonic::Bit),
            Token::Bmi => Some(Mnemonic::Bmi),
            Token::Bne => Some(Mnemonic::Bne),
            Token::Bpl => Some(Mnemonic::Bpl),
            Token::Brk => Some(Mnemonic::Brk),
            Token::Bvc => Some(Mnemonic::Bvc),
            Token::Bvs => Some(Mnemonic::Bvs),
            Token::Clc => Some(Mnemonic::Clc),
            Token::Cld => Some(Mnemonic::Cld),
            Token::Cli => Some(Mnemonic::Cli),
            Token::Clv => Some(Mnemonic::Clv),
            Token::Cmp => Some(Mnemonic::Cmp),
            Token::Cpx => Some(Mnemonic::Cpx),
            Token::Cpy => Some(Mnemonic::Cpy),
            Token::Dec => Some(Mnemonic::Dec),
            Token::Dex => Some(Mnemonic::Dex),
            Token::Dey => Some(Mnemonic::Dey),
            Token::Eor => Some(Mnemonic::Eor),
            Token::Inc => Some(Mnemonic::Inc),
            Token::Inx => Some(Mnemonic::Inx),
            Token::Iny => Some(Mnemonic::Iny),
            Token::Jmp => Some(Mnemonic::Jmp),
            Token::Jsr => Some(Mnemonic::Jsr),
            Token::Lda => Some(Mnemonic::Lda),
            Token::Ldx => Some(Mnemonic::Ldx),
            Token::Ldy => Some(Mnemonic::Ldy),
            Token::Lsr => Some(Mnemonic::Lsr),
            Token::Nop => Some(Mnemonic::Nop),
            Token::Ora => Some(Mnemonic::Ora),
            Token::Pha => Some(Mnemonic::Pha),
            Token::Php => Some(Mnemonic::Php),
            Token::Pla => Some(Mnemonic::Pla),
            Token::Plp => Some(Mnemonic::Plp),
            Token::Rol => Some(Mnemonic::Rol),
            Token::Ror => Some(Mnemonic::Ror),
            Token::Rti => Some(Mnemonic::Rti),
            Token::Rts => Some(Mnemonic::Rts),
            Token::Sbc => Some(Mnemonic::Sbc),
            Token::Sec => Some(Mnemonic::Sec),
            Token::Sed => Some(Mnemonic::Sed),
            Token::Sei => Some(Mnemonic::Sei),
            Token::Sta => Some(Mnemonic::Sta),
            Token::Stx => Some(Mnemonic::Stx),
            Token::Sty => Some(Mnemonic::Sty),
            Token::Tax => Some(Mnemonic::Tax),
            Token::Tay => Some(Mnemonic::Tay),
            Token::Tsx => Some(Mnemonic::Tsx),
            Token::Txa => Some(Mnemonic::Txa),
            Token::Txs => Some(Mnemonic::Txs),
            Token::Tya => Some(Mnemonic::Tya),
            Token::Dfb => Some(Mnemonic::Dfb),
            Token::Dfw => Some(Mnemonic::Dfw),
            Token::Equ => Some(Mnemonic::Equ),
            Token::Hlt => Some(Mnemonic::Hlt),
            Token::Inl => Some(Mnemonic::Inl),
            Token::Org => Some(Mnemonic::Org),
            Token::Sct => Some(Mnemonic::Sct),
            _ => None,
        }
    }

    /// The token of a mnemonic.
    pub fn from_mnemonic(mnemonic: Mnemonic) -> (token: Token)
        ensures
            token.deep_view() == TokenView::Mnemonic(mnemonic),
    {
        match mnemonic {
            Mnemonic::Adc => Token::Adc,
            Mnemonic::And => Token::And,
            Mnemonic::Asl => Token::Asl,
            Mnemonic::Bcc => Token::Bcc,
            Mnemonic::Bcs => Token::Bcs,
            Mnemonic::Beq => Token::Beq,
            Mnemonic::Bit => Token::Bit,
            Mnemonic::Bmi => Token::Bmi,
            Mnemonic::Bne => Token::Bne,
            Mnemonic::Bpl => Token::Bpl,
            Mnemonic::Brk => Token::Brk,
            Mnemonic::Bvc => Token::Bvc,
            Mnemonic::Bvs => Token::Bvs,
            Mnemonic::Clc => Token::Clc,
            Mnemonic::Cld => Token::Cld,
            Mnemonic::Cli => Token::Cli,
            Mnemonic::Clv => Token::Clv,
            Mnemonic::Cmp => Token::Cmp,
            Mnemonic::Cpx => Token::Cpx,
            Mnemonic::Cpy => Token::Cpy,
            Mnemonic::Dec => Token::Dec,
            Mnemonic::Dex => Token::Dex,
            Mnemonic::Dey => Token::Dey,
            Mnemonic::Eor => Token::Eor,
            Mnemonic::Inc => Token::Inc,
            Mnemonic::Inx => Token::Inx,
            Mnemonic::Iny => Token::Iny,
            Mnemonic::Jmp => Token::Jmp,
            Mnemonic::Jsr => Token::Jsr,
            Mnemonic::Lda => Token::Lda,
            Mnemonic::Ldx => Token::Ldx,
            Mnemonic::Ldy => Token::Ldy,
            Mnemonic::Lsr => Token::Lsr,
            Mnemonic::Nop => Token::Nop,
            Mnemonic::Ora => Token::Ora,
            Mnemonic::Pha => Token::Pha,
            Mnemonic::Php => Token::Php,
            Mnemonic::Pla => Token::Pla,
            Mnemonic::Plp => Token::Plp,
            Mnemonic::Rol => Token::Rol,
            Mnemonic::Ror => Token::Ror,
            Mnemonic::Rti => Token::Rti,
            Mnemonic::Rts => Token::Rts,
            Mnemonic::Sbc => Token::Sbc,
            Mnemonic::Sec => Token::Sec,
            Mnemonic::Sed => Token::Sed,
            Mnemonic::Sei => Token::Sei,
            Mnemonic::Sta => Token::Sta,
            Mnemonic::Stx => Token::Stx,
            Mnemonic::Sty => Token::Sty,
            Mnemonic::Tax => Token::Tax,
            Mnemonic::Tay => Token::Tay,
            Mnemonic::Tsx => Token::Tsx,
            Mnemonic::Txa => Token::Txa,
            Mnemonic::Txs => Token::Txs,
            Mnemonic::Tya => Token::Tya,
            Mnemonic::Dfb => Token::Dfb,
            Mnemonic::Dfw => Token::Dfw,
            Mnemonic::Equ => Token::Equ,
            Mnemonic::Hlt => Token::Hlt,
            Mnemonic::Inl => Token::Inl,
            Mnemonic::Org => Token::Org,
            Mnemonic::Sct => Token::Sct,
        }
    }

    /// The token as diagnostics print it.
    pub fn to_string(&self) -> (text: String)
        ensures
            text@ == token_text(self.deep_view()),
    {
        match self {
            Token::A => String::from_str("`A`"),
            Token::X => String::from_str("`X`"),
            Token::Y => String::from_str("`Y`"),
            Token::Global => String::from_str("`!`"),
            Token::Period => String::from_str("`.`"),
            Token::Comma => String::from_str("`,`"),
            Token::Immediate => String::from_str("`#`"),
            Token::LParen => String::from_str("`(`"),
            Token::RParen => String::from_str("`)`"),
            Token::LAngle => String::from_str("`<`"),
            Token::RAngle => String::from_str("`>`"),
            Token::Literal(Literal::Byte(byte)) => {
                let mut text = String::from_str("byte `");
                let digits = decimal_string(*byte as u64);
                text.append(digits.as_str());
                text.append("`");
                text
            },
            Token::Literal(Literal::Word(word)) => {
                let mut text = String::from_str("word `");
                let digits = decimal_string(*word as u64);
                text.append(digits.as_str());
                text.append("`");
                text
            },
            Token::Literal(Literal::String(string)) => {
                let mut text = String::from_str("`\"");
                text.append(string.as_str());
                text.append("\"`");
                text
            },
            Token::Ident(name) => {
                let mut text = String::from_str("`");
                text.append(name.as_str());
                text.append("`");
                text
            },
            Token::Eol => String::from_str("`<end of line>`"),
            Token::Error => String::from_str("`UNRECOGNIZED`"),
            _ => {
                match Mnemonic::try_from(self) {
                    Ok(mnemonic) => {
                        let mut text = String::from_str("`");
                        let name = mnemonic.to_string();
                        text.append(name.as_str());
                        text.append("`");
                        text
                    },
                    Err(_) => String::from_str("`UNRECOGNIZED`"),
                }
            },
        }
    }

    /// A tokenizer at the start of `source`.
    pub fn lexer<'a>(source: &'a str) -> (lexer: Lexer<'a>)
        ensures
            lexer.source() == source.spec_bytes(),
            lexer.cursor() == 0,
    {
        Lexer { source: source.as_bytes(), token_start: 0, token_end: 0 }
    }
}

/// What kind of token a token is, with the number of a literal number.
#[derive(Clone, Copy, Debug, PartialEq, Eq, Structural)]
pub enum TokenKind {
    Mnemonic(Mnemonic),
    A,
    X,
    Y,
    Global,
    Period,
    Comma,
    Immediate,
    LParen,
    RParen,
    LAngle,
    RAngle,
    Byte(u8),
    Word(u16),
    String,
    Ident,
    Eol,
    Error,
}

/// The kind of a token.
pub open spec fn kind_of(token: TokenView) -> TokenKind {
    match token {
        TokenView::Mnemonic(mnemonic) => TokenKind::Mnemonic(mnemonic),
        TokenView::A => TokenKind::A,
        TokenView::X => TokenKind::X,
        TokenView::Y => TokenKind::Y,
        TokenView::Global => TokenKind::Global,
        TokenView::Period => TokenKind::Period,
        TokenView::Comma => TokenKind::Comma,
        TokenView::Immediate => TokenKind::Immediate,
        TokenView::LParen => TokenKind::LParen,
        TokenView::RParen => TokenKind::RParen,
        TokenView::LAngle => TokenKind::LAngle,
        TokenView::RAngle => TokenKind::RAngle,
        TokenView::Literal(LiteralView::Byte(byte)) => TokenKind::Byte(byte),
        TokenView::Literal(LiteralView::Word(word)) => TokenKind::Word(word),
        TokenView::Literal(LiteralView::String(_)) => TokenKind::String,
        TokenView::Ident(_) => TokenKind::Ident,
        TokenView::Eol => TokenKind::Eol,
        TokenView::Error => TokenKind::Error,
    }
}

/// The text of an identifier or of a string literal; empty for any other
/// token.
pub open spec fn text_in(token: TokenView) -> Seq<char> {
    match token {
        TokenView::Literal(LiteralView::String(string)) => string,
        TokenView::Ident(name) => name,
        _ => Seq::empty(),
    }
}

impl Token {
    /// The kind of the token.
    pub fn kind(&self) -> (kind: TokenKind)
        ensures
            kind == kind_of(self.deep_view()),
    {
        match self {
            Token::A => TokenKind::A,
            Token::X => TokenKind::X,
            Token::Y => TokenKind::Y,
            Token::Global => TokenKind::Global,
            Token::Period => TokenKind::Period,
            Token::Comma => TokenKind::Comma,
            Token::Immediate => TokenKind::Immediate,
            Token::LParen => TokenKind::LParen,
            Token::RParen => TokenKind::RParen,
            Token::LAngle => TokenKind::LAngle,
            Token::RAngle => TokenKind::RAngle,
            Token::Literal(Literal::Byte(byte)) => TokenKind::Byte(*byte),
            Token::Literal(Literal::Word(word)) => TokenKind::Word(*word),
            Token::Literal(Literal::String(_)) => TokenKind::String,
            Token::Ident(_) => TokenKind::Ident,
            Token::Eol => TokenKind::Eol,
            Token::Error => TokenKind::Error,
            _ => match Mnemonic::try_from(self) {
                Ok(mnemonic) => TokenKind::Mnemonic(mnemonic),
                Err(_) => TokenKind::Error,
            },
        }
    }

    /// A copy of the text of an identifier or of a string literal.
    pub fn text(&self) -> (text: String)
        ensures
            text@ == text_in(self.deep_view()),
    {
        match self {
            Token::Literal(Literal::String(string)) => string.clone(),
            Token::Ident(name) => name.clone(),
            _ => String::new(),
        }
    }
}

impl Mnemonic {
    /// The mnemonic that a token is; an error for any other token.
    pub fn try_from(value: &Token) -> (mnemonic: Result<Mnemonic, ()>)
        ensures
            match value.deep_view() {
                TokenView::Mnemonic(found) => mnemonic == Ok::<Mnemonic, ()>(found),
                _ => mnemonic is Err,
            },
    {
        match value {
            Token::Adc => Ok(Mnemonic::Adc),
            Token::And => Ok(Mnemonic::And),
            Token::Asl => Ok(Mnemonic::Asl),
            Token::Bcc => Ok(Mnemonic::Bcc),
            Token::Bcs => Ok(Mnemonic::Bcs),
            Token::Beq => Ok(Mnemonic::Beq),
            Token::Bit => Ok(Mnemonic::Bit),
            Token::Bmi => Ok(Mnemonic::Bmi),
            Token::Bne => Ok(Mnemonic::Bne),
            Token::Bpl => Ok(Mnemonic::Bpl),
            Token::Brk => Ok(Mnemonic::Brk),
            Token::Bvc => Ok(Mnemonic::Bvc),
            Token::Bvs => Ok(Mnemonic::Bvs),
            Token::Clc => Ok(Mnemonic::Clc),
            Token::Cld => Ok(Mnemonic::Cld),
            Token::Cli => Ok(Mnemonic::Cli),
            Token::Clv => Ok(Mnemonic::Clv),
            Token::Cmp => Ok(Mnemonic::Cmp),
            Token::Cpx => Ok(Mnemonic::Cpx),
            Token::Cpy => Ok(Mnemonic::Cpy),
            Token::Dec => Ok(Mnemonic::Dec),
            Token::Dex => Ok(Mnemonic::Dex),
            Token::Dey => Ok(Mnemonic::Dey),
            Token::Eor => Ok(Mnemonic::Eor),
            Token::Inc => Ok(Mnemonic::Inc),
            Token::Inx => Ok(Mnemonic::Inx),
            Token::Iny => Ok(Mnemonic::Iny),
            Token::Jmp => Ok(Mnemonic::Jmp),
            Token::Jsr => Ok(Mnemonic::Jsr),
            Token::Lda => Ok(Mnemonic::Lda),
            Token::Ldx => Ok(Mnemonic::Ldx),
            Token::Ldy => Ok(Mnemonic::Ldy),
            Token::Lsr => Ok(Mnemonic::Lsr),
            Token::Nop => Ok(Mnemonic::Nop),
            Token::Ora => Ok(Mnemonic::Ora),
            Token::Pha => Ok(Mnemonic::Pha),
            Token::Php => Ok(Mnemonic::Php),
            Token::Pla => Ok(Mnemonic::Pla),
            Token::Plp => Ok(Mnemonic::Plp),
            Token::Rol => Ok(Mnemonic::Rol),
            Token::Ror => Ok(Mnemonic::Ror),
            Token::Rti => Ok(Mnemonic::Rti),
            Token::Rts => Ok(Mnemonic::Rts),
            Token::Sbc => Ok(Mnemonic::Sbc),
            Token::Sec => Ok(Mnemonic::Sec),
            Token::Sed => Ok(Mnemonic::Sed),
            Token::Sei => Ok(Mnemonic::Sei),
            Token::Sta => Ok(Mnemonic::Sta),
            Token::Stx => Ok(Mnemonic::Stx),
            Token::Sty => Ok(Mnemonic::Sty),
            Token::Tax => Ok(Mnemonic::Tax),
            Token::Tay => Ok(Mnemonic::Tay),
            Token::Tsx => Ok(Mnemonic::Tsx),
            Token::Txa => Ok(Mnemonic::Txa),
            Token::Txs => Ok(Mnemonic::Txs),
            Token::Tya => Ok(Mnemonic::Tya),
            Token::Dfb => Ok(Mnemonic::Dfb),
            Token::Dfw => Ok(Mnemonic::Dfw),
            Token::Equ => Ok(Mnemonic::Equ),
            Token::Hlt => Ok(Mnemonic::Hlt),
            Token::Inl => Ok(Mnemonic::Inl),
            Token::Org => Ok(Mnemonic::Org),
            Token::Sct => Ok(Mnemonic::Sct),
            _ => Err(()),
        }
    }
}

pub open spec fn is_letter(b: u8) -> bool {
    (0x41 <= b <= 0x5a) || (0x61 <= b <= 0x7a)
}

pub open spec fn is_digit(b: u8) -> bool {
    0x30 <= b <= 0x39
}

/// The classes of bytes of which a token takes the longest run.
#[derive(Clone, Copy)]
pub enum ByteClass {
    /// Letters, digits and the underscore: the tail of a word, and that of a
    /// number with a radix prefix. A number takes all letters, so that a
    /// mistyped digit spoils the number and does not start a word.
    Word,
    /// Digits and the underscore: the tail of a decimal number.
    Decimal,
    /// Spaces and tabs.
    Blank,
    /// Anything but the end of the line.
    Line,
    /// The continuation bytes of a UTF-8 character.
    Continuation,
}

pub open spec fn in_class(class: ByteClass, b: u8) -> bool {
    match class {
        ByteClass::Word => is_letter(b) || is_digit(b) || b == 0x5f,
        ByteClass::Decimal => is_digit(b) || b == 0x5f,
        ByteClass::Blank => b == 0x20 || b == 0x09,
        ByteClass::Line => b != 0x0a,
        ByteClass::Continuation => 0x80 <= b < 0xc0,
    }
}

/// Where the longest run of bytes of `class` that starts at `from` ends.
pub open spec fn run_end(class: ByteClass, source: Seq<u8>, from: int) -> int
    decreases source.len() - from,
{
    if 0 <= from < source.len() && in_class(class, source[from]) {
        run_end(class, source, from + 1)
    } else {
        from
    }
}

pub proof fn lemma_run_end_bounds(class: ByteClass, source: Seq<u8>, from: int)
    requires
        0 <= from <= source.len(),
    ensures
        from <= run_end(class, source, from) <= source.len(),
        forall|i: int| from <= i < run_end(class, source, from) ==> in_class(class, source[i]),
        run_end(class, source, from) < source.len() ==> !in_class(
            class,
            source[run_end(class, source, from)],
        ),
    decreases source.len() - from,
{
    if from < source.len() && in_class(class, source[from]) {
        lemma_run_end_bounds(class, source, from + 1);
    }
}

fn byte_in_class(class: ByteClass, b: u8) -> (inside: bool)
    ensures
        inside == in_class(class, b),
{
    let letter = (0x41 <= b && b <= 0x5a) || (0x61 <= b && b <= 0x7a);
    let digit = 0x30 <= b && b <= 0x39;
    match class {
        ByteClass::Word => letter || digit || b == 0x5f,
        ByteClass::Decimal => digit || b == 0x5f,
        ByteClass::Blank => b == 0x20 || b == 0x09,
        ByteClass::Line => b != 0x0a,
        ByteClass::Continuation => 0x80 <= b && b < 0xc0,
    }
}

fn scan_run(class: ByteClass, source: &[u8], from: usize) -> (end: usize)
    requires
        from <= source.len(),
    ensures
        end == run_end(class, source@, from as int),
        from <= end <= source.len(),
{
    let mut i: usize = from;
    while i < source.len() && byte_in_class(class, source[i])
        invariant
            from <= i <= source.len(),
            run_end(class, source@, i as int) == run_end(class, source@, from as int),
        decreases source.len() - i,
    {
        i += 1;
    }
    i
}

/// The characters that may follow a backslash in a string literal: `n`,
/// `t`, `0`, the quote and the backslash, and `f` and `i`, by which a string
/// switches the mode of the screen.
pub open spec fn is_escape(b: u8) -> bool {
    b == 0x6e || b == 0x74 || b == 0x30 || b == 0x22 || b == 0x5c || b == 0x66 || b == 0x69
}

fn byte_is_escape(b: u8) -> (escape: bool)
    ensures
        escape == is_escape(b),
{
    b == 0x6e || b == 0x74 || b == 0x30 || b == 0x22 || b == 0x5c || b == 0x66 || b == 0x69
}

/// Scans the body of a string literal from `from`: whether a closing quote
/// was found, and where the literal ends. A literal that is not closed ends
/// where the text ends or at the backslash of an escape that is none.
pub open spec fn string_end(source: Seq<u8>, from: int) -> (bool, int)
    decreases source.len() - from,
{
    if from < 0 || from >= source.len() {
        (false, from)
    } else if source[from] == 0x22 {
        (true, from + 1)
    } else if source[from] == 0x5c {
        if from + 1 < source.len() && is_escape(source[from + 1]) {
            string_end(source, from + 2)
        } else {
            (false, from)
        }
    } else {
        string_end(source, from + 1)
    }
}

pub proof fn lemma_string_end_bounds(source: Seq<u8>, from: int)
    requires
        0 <= from <= source.len(),
    ensures
        from <= string_end(source, from).1 <= source.len(),
        string_end(source, from).0 ==> from < string_end(source, from).1,
    decreases source.len() - from,
{
    if from < source.len() && source[from] != 0x22 {
        if source[from] == 0x5c {
            if from + 1 < source.len() && is_escape(source[from + 1]) {
                lemma_string_end_bounds(source, from + 2);
            }
        } else {
            lemma_string_end_bounds(source, from + 1);
        }
    }
}

fn scan_string(source: &[u8], from: usize) -> (found: (bool, usize))
    requires
        from <= source.len(),
    ensures
        found.0 == string_end(source@, from as int).0,
        found.1 == string_end(source@, from as int).1,
        from <= found.1 <= source.len(),
        found.0 ==> from < found.1,
{
    proof {
        lemma_string_end_bounds(source@, from as int);
    }
    let mut i: usize = from;
    loop
        invariant
            from <= i <= source.len(),
            string_end(source@, i as int) == string_end(source@, from as int),
        decreases source.len() - i,
    {
        if i >= source.len() {
            return (false, i);
        }
        let b = source[i];
        if b == 0x22 {
            return (true, i + 1);
        } else if b == 0x5c {
            if i + 1 < source.len() && byte_is_escape(source[i + 1]) {
                i += 2;
            } else {
                return (false, i);
            }
        } else {
            i += 1;
        }
    }
}

/// The radix that the first byte of a number announces.
pub open spec fn radix_of(first: u8) -> int {
    if first == 0x25 {
        2
    } else if first == 0x40 {
        8
    } else if first == 0x24 {
        16
    } else {
        10
    }
}

/// The value of a digit in any radix up to thirty-six; thirty-six for a
/// byte that is no digit.
pub open spec fn digit_value(b: u8) -> int {
    if is_digit(b) {
        b - 0x30
    } else if 0x61 <= b <= 0x7a {
        b - 0x61 + 10
    } else if 0x41 <= b <= 0x5a {
        b - 0x41 + 10
    } else {
        36
    }
}

/// How many digits there are among bytes: underscores only group them.
pub open spec fn digit_count(digits: Seq<u8>) -> nat
    decreases digits.len(),
{
    if digits.len() == 0 {
        0
    } else {
        digit_count(digits.drop_last()) + if digits.last() == 0x5f {
            0nat
        } else {
            1nat
        }
    }
}

/// Every digit is one of the radix.
pub open spec fn digits_valid(digits: Seq<u8>, radix: int) -> bool {
    forall|i: int|
        0 <= i < digits.len() && digits[i] != 0x5f ==> digit_value(#[trigger] digits[i]) < radix
}

/// The number that the digits spell in the radix.
pub open spec fn digits_value(digits: Seq<u8>, radix: int) -> int
    decreases digits.len(),
{
    if digits.len() == 0 {
        0
    } else if digits.last() == 0x5f {
        digits_value(digits.drop_last(), radix)
    } else {
        digits_value(digits.drop_last(), radix) * radix + digit_value(digits.last())
    }
}

/// The most digits that a number may have in a radix.
pub open spec fn max_digits(radix: int) -> int {
    if radix == 2 {
        16
    } else if radix == 8 {
        6
    } else if radix == 10 {
        5
    } else {
        4
    }
}

/// The most digits with which a number is still one byte wide.
pub open spec fn byte_digits(radix: int) -> int {
    if radix == 2 {
        8
    } else if radix == 16 {
        2
    } else {
        3
    }
}

/// The literal that digits spell: none if there are too many of them, if one
/// is not of the radix, or if the number does not fit a word. It is a word
/// if it does not fit a byte or is written with more digits than a byte has.
pub open spec fn number_literal(digits: Seq<u8>, radix: int) -> Option<LiteralView> {
    if digit_count(digits) > max_digits(radix) || !digits_valid(digits, radix) || digits_value(
        digits,
        radix,
    ) > 0xffff {
        None
    } else if digits_value(digits, radix) > 0xff || digit_count(digits) > byte_digits(radix) {
        Some(LiteralView::Word(digits_value(digits, radix) as u16))
    } else {
        Some(LiteralView::Byte(digits_value(digits, radix) as u8))
    }
}

/// The literal that a number with its radix prefix, if it has one, spells.
pub open spec fn lexed_number(slice: Seq<u8>) -> Option<LiteralView> {
    if radix_of(slice[0]) == 10 {
        number_literal(slice, 10)
    } else {
        number_literal(slice.subrange(1, slice.len() as int), radix_of(slice[0]))
    }
}

/// Parse a number literal by its radix prefix.
pub fn lex_number(slice: &[u8]) -> (literal: Option<Literal>)
    requires
        slice.len() >= 1,
    ensures
        literal.deep_view() == lexed_number(slice@),
{
    let first = slice[0];
    let radix: u32 = if first == 0x25 {
        2
    } else if first == 0x40 {
        8
    } else if first == 0x24 {
        16
    } else {
        10
    };
    let begin: usize = if radix == 10 {
        0
    } else {
        1
    };
    let ghost digits = slice@.subrange(begin as int, slice.len() as int);
    assert(radix == 10 ==> digits =~= slice@);
    let mut count: usize = 0;
    let mut valid = true;
    let mut value: u32 = 0;
    let mut over = false;
    let mut i: usize = begin;
    while i < slice.len()
        invariant
            begin <= i <= slice.len(),
            digits == slice@.subrange(begin as int, slice.len() as int),
            radix == 2 || radix == 8 || radix == 10 || radix == 16,
            count == digit_count(digits.subrange(0, i - begin)),
            count <= i - begin,
            valid == digits_valid(digits.subrange(0, i - begin), radix as int),
            !over ==> value == digits_value(digits.subrange(0, i - begin), radix as int),
            !over ==> value <= 0xffff,
            over ==> digits_value(digits.subrange(0, i - begin), radix as int) > 0xffff,
        decreases slice.len() - i,
    {
        let b = slice[i];
        let ghost before = digits.subrange(0, i - begin);
        let ghost after = digits.subrange(0, i + 1 - begin);
        assert(after.drop_last() =~= before);
        assert(after.last() == b);
        if b != 0x5f {
            count += 1;
            let digit: u32 = if 0x30 <= b && b <= 0x39 {
                (b - 0x30) as u32
            } else if 0x61 <= b && b <= 0x7a {
                (b - 0x61) as u32 + 10
            } else if 0x41 <= b && b <= 0x5a {
                (b - 0x41) as u32 + 10
            } else {
                36
            };
            assert(digit == digit_value(b));
            if digit >= radix {
                valid = false;
            }
            if !over {
                assert(value * radix <= 0xffff * 16) by (nonlinear_arith)
                    requires
                        value <= 0xffff,
                        radix <= 16,
                ;
                value = value * radix + digit;
                if value > 0xffff {
                    over = true;
                }
            } else {
                let ghost rest = digits_value(before, radix as int);
                assert(rest * radix >= rest) by (nonlinear_arith)
                    requires
                        rest >= 0,
                        radix >= 1,
                ;
            }
        }
        proof {
            let r = radix as int;
            let fits = b == 0x5f || digit_value(b) < r;
            if digits_valid(after, r) {
                assert forall|k: int| 0 <= k < before.len() && before[k] != 0x5f implies digit_value(
                    #[trigger] before[k],
                ) < r by {
                    assert(after[k] == before[k]);
                }
                assert(after[after.len() - 1] == b);
                assert(fits);
            }
            if digits_valid(before, r) && fits {
                assert forall|k: int| 0 <= k < after.len() && after[k] != 0x5f implies digit_value(
                    #[trigger] after[k],
                ) < r by {
                    if k < before.len() {
                        assert(before[k] == after[k]);
                    }
                }
            }
            assert(digits_valid(after, r) <==> digits_valid(before, r) && fits);
        }
        i += 1;
    }
    assert(digits.subrange(0, digits.len() as int) =~= digits);
    let most: usize = if radix == 2 {
        16
    } else if radix == 8 {
        6
    } else if radix == 10 {
        5
    } else {
        4
    };
    let byte_most: usize = if radix == 2 {
        8
    } else if radix == 16 {
        2
    } else {
        3
    };
    if count > most || !valid || over {
        None
    } else if value > 0xff || count > byte_most {
        Some(Literal::Word(value as u16))
    } else {
        Some(Literal::Byte(value as u8))
    }
}

/// The reserved word that a word is, whatever its case: a mnemonic or the
/// name of a register.
pub open spec fn keyword(word: Seq<u8>) -> Option<TokenView> {
    if word.len() == 1 {
        if lower(word[0]) == 0x61 {
            Some(TokenView::A)
        } else if lower(word[0]) == 0x78 {
            Some(TokenView::X)
        } else if lower(word[0]) == 0x79 {
            Some(TokenView::Y)
        } else {
            None
        }
    } else if word.len() == 3 {
        match mnemonic_of_letters(lower(word[0]), lower(word[1]), lower(word[2])) {
            Some(mnemonic) => Some(TokenView::Mnemonic(mnemonic)),
            None => None,
        }
    } else {
        None
    }
}

fn find_keyword(word: &[u8]) -> (token: Option<Token>)
    ensures
        token.deep_view() == keyword(word@),
{
    if word.len() == 1 {
        let letter = to_lower(word[0]);
        if letter == 0x61 {
            Some(Token::A)
        } else if letter == 0x78 {
            Some(Token::X)
        } else if letter == 0x79 {
            Some(Token::Y)
        } else {
            None
        }
    } else if word.len() == 3 {
        match find_mnemonic(to_lower(word[0]), to_lower(word[1]), to_lower(word[2])) {
            Some(mnemonic) => Some(Token::from_mnemonic(mnemonic)),
            None => None,
        }
    } else {
        None
    }
}

/// A token with the bytes of the source that it was read from.
pub struct Scan {
    pub token: TokenView,
    pub start: int,
    pub end: int,
}

/// Where the next token starts: blanks are passed over, and so is a comment,
/// which runs from `*` through the end of its line.
pub open spec fn skip_trivia(source: Seq<u8>, from: int) -> int
    decreases source.len() - from,
{
    if 0 <= from < source.len() && in_class(ByteClass::Blank, source[from]) {
        skip_trivia(source, from + 1)
    } else if 0 <= from < source.len() && source[from] == 0x2a && comment_end(source, from) > from {
        skip_trivia(source, comment_end(source, from))
    } else {
        from
    }
}

/// Where the comment that starts at `from` ends, after the end of its line;
/// `from` itself where the line does not end, and the `*` is no comment.
pub open spec fn comment_end(source: Seq<u8>, from: int) -> int {
    if run_end(ByteClass::Line, source, from + 1) < source.len() {
        run_end(ByteClass::Line, source, from + 1) + 1
    } else {
        from
    }
}

/// The token that starts at `at`, where no blank and no comment starts.
pub open spec fn token_at(source: Seq<u8>, at: int) -> Scan {
    let b = source[at];
    if b == 0x0a {
        Scan { token: TokenView::Eol, start: at, end: at + 1 }
    } else if b == 0x21 {
        Scan { token: TokenView::Global, start: at, end: at + 1 }
    } else if b == 0x2e {
        Scan { token: TokenView::Period, start: at, end: at + 1 }
    } else if b == 0x2c {
        Scan { token: TokenView::Comma, start: at, end: at + 1 }
    } else if b == 0x23 {
        Scan { token: TokenView::Immediate, start: at, end: at + 1 }
    } else if b == 0x28 {
        Scan { token: TokenView::LParen, start: at, end: at + 1 }
    } else if b == 0x29 {
        Scan { token: TokenView::RParen, start: at, end: at + 1 }
    } else if b == 0x3c {
        Scan { token: TokenView::LAngle, start: at, end: at + 1 }
    } else if b == 0x3e {
        Scan { token: TokenView::RAngle, start: at, end: at + 1 }
    } else if is_letter(b) {
        let end = run_end(ByteClass::Word, source, at + 1);
        let word = source.subrange(at, end);
        Scan {
            token: match keyword(word) {
                Some(token) => token,
                None => TokenView::Ident(ascii_text(word)),
            },
            start: at,
            end,
        }
    } else if is_digit(b) {
        let end = run_end(ByteClass::Decimal, source, at + 1);
        Scan { token: number_token(source.subrange(at, end)), start: at, end }
    } else if (b == 0x25 || b == 0x40 || b == 0x24) && at + 1 < source.len() && (is_letter(
        source[at + 1],
    ) || is_digit(source[at + 1])) {
        let end = run_end(ByteClass::Word, source, at + 2);
        Scan { token: number_token(source.subrange(at, end)), start: at, end }
    } else if b == 0x22 {
        let (closed, end) = string_end(source, at + 1);
        Scan {
            token: if closed {
                TokenView::Literal(LiteralView::String(text_of(source.subrange(at + 1, end - 1))))
            } else {
                TokenView::Error
            },
            start: at,
            end,
        }
    } else if b == 0x2a {
        Scan { token: TokenView::Error, start: at, end: run_end(ByteClass::Line, source, at + 1) }
    } else {
        Scan {
            token: TokenView::Error,
            start: at,
            end: run_end(ByteClass::Continuation, source, at + 1),
        }
    }
}

/// The token of a number: an error where its digits spell no literal.
pub open spec fn number_token(slice: Seq<u8>) -> TokenView {
    match lexed_number(slice) {
        Some(literal) => TokenView::Literal(literal),
        None => TokenView::Error,
    }
}

/// The next token at or after `from`, if the source has one.
pub open spec fn next_token(source: Seq<u8>, from: int) -> Option<Scan> {
    let at = skip_trivia(source, from);
    if 0 <= at < source.len() {
        Some(token_at(source, at))
    } else {
        None
    }
}

/// All the tokens of the source from `from` on.
pub open spec fn tokens_from(source: Seq<u8>, from: int) -> Seq<Scan>
    decreases source.len() - from,
{
    match next_token(source, from) {
        Some(scan) => if from < scan.end <= source.len() {
            seq![scan] + tokens_from(source, scan.end)
        } else {
            seq![scan]
        },
        None => Seq::empty(),
    }
}

pub proof fn lemma_skip_trivia_bounds(source: Seq<u8>, from: int)
    requires
        0 <= from <= source.len(),
    ensures
        from <= skip_trivia(source, from) <= source.len(),
    decreases source.len() - from,
{
    if from < source.len() && in_class(ByteClass::Blank, source[from]) {
        lemma_skip_trivia_bounds(source, from + 1);
    } else if from < source.len() && source[from] == 0x2a && comment_end(source, from) > from {
        lemma_run_end_bounds(ByteClass::Line, source, from + 1);
        lemma_skip_trivia_bounds(source, comment_end(source, from));
    }
}

/// A token is not empty and lies within the source.
pub proof fn lemma_token_at_bounds(source: Seq<u8>, at: int)
    requires
        0 <= at < source.len(),
    ensures
        token_at(source, at).start == at,
        at < token_at(source, at).end <= source.len(),
{
    lemma_run_end_bounds(ByteClass::Word, source, at + 1);
    lemma_run_end_bounds(ByteClass::Decimal, source, at + 1);
    lemma_run_end_bounds(ByteClass::Line, source, at + 1);
    lemma_run_end_bounds(ByteClass::Continuation, source, at + 1);
    lemma_string_end_bounds(source, at + 1);
    if at + 1 < source.len() {
        lemma_run_end_bounds(ByteClass::Word, source, at + 2);
    }
}

/// Every token that is read moves the tokenizer on.
pub proof fn lemma_next_token_progress(source: Seq<u8>, from: int)
    requires
        0 <= from <= source.len(),
    ensures
        match next_token(source, from) {
            Some(scan) => from <= scan.start < scan.end <= source.len(),
            None => true,
        },
{
    lemma_skip_trivia_bounds(source, from);
    let at = skip_trivia(source, from);
    if at < source.len() {
        lemma_token_at_bounds(source, at);
    }
}

fn skip(source: &[u8], from: usize) -> (at: usize)
    requires
        from <= source.len(),
    ensures
        at == skip_trivia(source@, from as int),
        from <= at <= source.len(),
{
    let mut i: usize = from;
    loop
        invariant
            from <= i <= source.len(),
            skip_trivia(source@, i as int) == skip_trivia(source@, from as int),
        decreases source.len() - i,
    {
        if i >= source.len() {
            return i;
        }
        let b = source[i];
        if b == 0x20 || b == 0x09 {
            i += 1;
        } else if b == 0x2a {
            let line_end = scan_run(ByteClass::Line, source, i + 1);
            if line_end < source.len() {
                i = line_end + 1;
            } else {
                return i;
            }
        } else {
            return i;
        }
    }
}

proof fn lemma_word_is_ascii(source: Seq<u8>, at: int, end: int)
    requires
        0 <= at < end <= source.len(),
        is_letter(source[at]),
        forall|i: int| at + 1 <= i < end ==> in_class(ByteClass::Word, source[i]),
    ensures
        is_ascii_bytes(source.subrange(at, end)),
{
    assert forall|i: int| 0 <= i < end - at implies #[trigger] source.subrange(at, end)[i]
        < 0x80 by {
        if i > 0 {
            assert(in_class(ByteClass::Word, source[at + i]));
        }
    }
}

/// Reads the token that starts at `at`.
fn scan_token(source: &[u8], at: usize) -> (found: (Token, usize))
    requires
        at < source.len(),
    ensures
        found.0.deep_view() == token_at(source@, at as int).token,
        found.1 == token_at(source@, at as int).end,
        at < found.1 <= source.len(),
{
    proof {
        lemma_token_at_bounds(source@, at as int);
    }
    let b = source[at];
    if b == 0x0a {
        (Token::Eol, at + 1)
    } else if b == 0x21 {
        (Token::Global, at + 1)
    } else if b == 0x2e {
        (Token::Period, at + 1)
    } else if b == 0x2c {
        (Token::Comma, at + 1)
    } else if b == 0x23 {
        (Token::Immediate, at + 1)
    } else if b == 0x28 {
        (Token::LParen, at + 1)
    } else if b == 0x29 {
        (Token::RParen, at + 1)
    } else if b == 0x3c {
        (Token::LAngle, at + 1)
    } else if b == 0x3e {
        (Token::RAngle, at + 1)
    } else if (0x41 <= b && b <= 0x5a) || (0x61 <= b && b <= 0x7a) {
        let end = scan_run(ByteClass::Word, source, at + 1);
        let word = copy_range(source, at, end);
        match find_keyword(word.as_slice()) {
            Some(token) => (token, end),
            None => {
                proof {
                    lemma_run_end_bounds(ByteClass::Word, source@, at + 1);
                    lemma_word_is_ascii(source@, at as int, end as int);
                }
                (Token::Ident(ascii_string(word.as_slice())), end)
            },
        }
    } else if 0x30 <= b && b <= 0x39 {
        let end = scan_run(ByteClass::Decimal, source, at + 1);
        let slice = copy_range(source, at, end);
        match lex_number(slice.as_slice()) {
            Some(literal) => (Token::Literal(literal), end),
            None => (Token::Error, end),
        }
    } else if (b == 0x25 || b == 0x40 || b == 0x24) && at + 1 < source.len() && byte_in_class(
        ByteClass::Word,
        source[at + 1],
    ) && source[at + 1] != 0x5f {
        let end = scan_run(ByteClass::Word, source, at + 2);
        let slice = copy_range(source, at, end);
        match lex_number(slice.as_slice()) {
            Some(literal) => (Token::Literal(literal), end),
            None => (Token::Error, end),
        }
    } else if b == 0x22 {
        let (closed, end) = scan_string(source, at + 1);
        if closed {
            let body = copy_range(source, at + 1, end - 1);
            (Token::Literal(Literal::String(text_from_bytes(body.as_slice()))), end)
        } else {
            (Token::Error, end)
        }
    } else if b == 0x2a {
        (Token::Error, scan_run(ByteClass::Line, source, at + 1))
    } else {
        (Token::Error, scan_run(ByteClass::Continuation, source, at + 1))
    }
}

/// The tokenizer: the source and the span of the token that was read last.
pub struct Lexer<'a> {
    source: &'a [u8],
    token_start: usize,
    token_end: usize,
}

impl<'a> Lexer<'a> {
    #[verifier::type_invariant]
    spec fn well_formed(&self) -> bool {
        self.token_start <= self.token_end <= self.source@.len()
    }

    /// The bytes that are being read.
    pub closed spec fn source(&self) -> Seq<u8> {
        self.source@
    }

    /// Where the token that was read last starts.
    pub closed spec fn start(&self) -> int {
        self.token_start as int
    }

    /// Where the token that was read last ends and the next is looked for.
    pub closed spec fn cursor(&self) -> int {
        self.token_end as int
    }

    /// Reads the next token; `None` at the end of the source.
    pub fn next(&mut self) -> (token: Option<Token>)
        ensures
            final(self).source() == old(self).source(),
            token.deep_view() == match next_token(old(self).source(), old(self).cursor()) {
                Some(scan) => Some(scan.token),
                None => None,
            },
            match next_token(old(self).source(), old(self).cursor()) {
                Some(scan) => final(self).start() == scan.start && final(self).cursor()
                    == scan.end,
                None => final(self).start() == final(self).cursor() && final(self).cursor()
                    == old(self).source().len(),
            },
    {
        proof {
            use_type_invariant(&*self);
            lemma_next_token_progress(self.source@, self.token_end as int);
        }
        let at = skip(self.source, self.token_end);
        if at >= self.source.len() {
            self.token_end = at;
            self.token_start = at;
            None
        } else {
            let (token, end) = scan_token(self.source, at);
            self.token_end = end;
            self.token_start = at;
            Some(token)
        }
    }

    /// The span of the token that was read last.
    pub fn span(&self) -> (span: Range<usize>)
        ensures
            span.start == self.start(),
            span.end == self.cursor(),
    {
        self.token_start..self.token_end
    }
}

/// A token and the bytes of the source that it spans.
#[derive(Clone, Debug, PartialEq)]
pub struct SpannedToken {
    pub token: Token,
    pub span: Range<usize>,
}

impl SpannedToken {
    /// The model of the token with its span.
    pub open spec fn scan(&self) -> Scan {
        Scan {
            token: self.token.deep_view(),
            start: self.span.start as int,
            end: self.span.end as int,
        }
    }
}

/// The models of tokens with their spans.
pub open spec fn scans(tokens: Seq<SpannedToken>) -> Seq<Scan> {
    Seq::new(tokens.len(), |i: int| tokens[i].scan())
}

/// Reads all the tokens of `source`.
pub fn tokenize(source: &str) -> (tokens: Vec<SpannedToken>)
    ensures
        scans(tokens@) == tokens_from(source.spec_bytes(), 0),
{
    let bytes = source.as_bytes();
    let mut tokens: Vec<SpannedToken> = Vec::new();
    let mut at: usize = 0;
    loop
        invariant
            at <= bytes@.len(),
            bytes@ == source.spec_bytes(),
            scans(tokens@) + tokens_from(bytes@, at as int) == tokens_from(bytes@, 0),
        decreases bytes@.len() - at,
    {
        proof {
            lemma_next_token_progress(bytes@, at as int);
        }
        let start = skip(bytes, at);
        if start >= bytes.len() {
            assert(tokens_from(bytes@, at as int) =~= Seq::empty());
            assert(scans(tokens@) + Seq::empty() =~= scans(tokens@));
            return tokens;
        }
        let (token, end) = scan_token(bytes, start);
        let ghost before = scans(tokens@);
        tokens.push(SpannedToken { token, span: start..end });
        proof {
            let scan = token_at(bytes@, start as int);
            assert(scans(tokens@) =~= before.push(scan));
            assert(tokens_from(bytes@, at as int) == seq![scan] + tokens_from(bytes@, end as int));
            assert(before.push(scan) + tokens_from(bytes@, end as int) =~= before + (seq![scan]
                + tokens_from(bytes@, end as int)));
        }
        at = end;
    }
}

} // verus!
