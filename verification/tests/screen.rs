use s502_as::apple::{apple_string, AppleCharacter};
use s502_as::ast::{AddressMode, Location, Mnemonic, Modifier, Operand, OperandMode, Spanned, Value};
use s502_as::error::AssemblerError;
use s502_as::opcodes::opcode;

fn place() -> Location {
    Location { span: 10..20, file_name: "screen.65a".to_string() }
}

fn bytes(text: &str) -> Vec<u8> {
    apple_string(&text.to_string(), place())
        .unwrap()
        .into_iter()
        .map(|character| character.0)
        .collect()
}

#[test]
fn normal_text() {
    assert_eq!(bytes(" A@az_"), vec![0xa0, 0xc1, 0xc0, 0xc1, 0xda, 0xdf]);
}

#[test]
fn flashing_and_inverse_text() {
    assert_eq!(bytes("\\f a"), vec![0x60, 0x41]);
    assert_eq!(bytes("\\i a"), vec![0x20, 0x01]);
    assert_eq!(bytes("\\ia\\na\\fa"), vec![0x01, 0xc1, 0x41]);
}

#[test]
fn escaped_characters() {
    assert_eq!(bytes("\\\"\\\\\\0"), vec![0xa2, 0xdc, 0x00]);
}

#[test]
fn empty_text() {
    assert_eq!(bytes(""), Vec::<u8>::new());
}

#[test]
fn invalid_character_is_pointed_at() {
    assert_eq!(
        apple_string(&"ab~".to_string(), place()),
        Err(AssemblerError {
            message: "Character `~` is invalid".to_string(),
            labels: vec![(
                Location { span: 13..14, file_name: "screen.65a".to_string() },
                None
            )],
            help: None,
        })
    );
}

#[test]
fn invalid_escape() {
    let expected = Err(AssemblerError {
        message: "Invalid escape sequence".to_string(),
        labels: vec![(place(), None)],
        help: Some("Valid escape sequences are `\\n`, `\\f`, `\\i`, '\\0', '\\'".to_string()),
    });
    assert_eq!(apple_string(&"a\\t".to_string(), place()), expected);
    assert_eq!(apple_string(&"a\\".to_string(), place()), expected);
}

#[test]
fn screen_code_of_a_character() {
    assert_eq!(AppleCharacter::from('a'), AppleCharacter(0xc1));
    assert_eq!(AppleCharacter::from('A'), AppleCharacter(0xc1));
    assert_eq!(AppleCharacter::from(' '), AppleCharacter(0xa0));
    assert_eq!(AppleCharacter::from('~'), AppleCharacter(0xe0));
    assert_eq!(AppleCharacter::from('\u{e9}'), AppleCharacter(0xe0));
}

fn operand(mode: OperandMode, value: Value) -> Operand {
    Operand { mode, modifier: None, value: Spanned::new((value, 0..1)) }
}

#[test]
fn address_modes() {
    assert_eq!(
        operand(OperandMode::Address, Value::Byte(1)).address_mode(false),
        AddressMode::Zeropage
    );
    assert_eq!(
        operand(OperandMode::Address, Value::Word(1)).address_mode(false),
        AddressMode::Absolute
    );
    assert_eq!(
        operand(OperandMode::Address, Value::Reference("l".to_string())).address_mode(true),
        AddressMode::Zeropage
    );
    assert_eq!(
        operand(OperandMode::XIndexed, Value::Byte(1)).address_mode(false),
        AddressMode::ZeropageX
    );
    assert_eq!(
        operand(OperandMode::XIndexed, Value::Word(1)).address_mode(true),
        AddressMode::AbsoluteX
    );
    assert_eq!(
        operand(OperandMode::YIndexed, Value::Byte(1)).address_mode(false),
        AddressMode::ZeropageY
    );
    assert_eq!(
        operand(OperandMode::YIndexed, Value::Reference("l".to_string())).address_mode(false),
        AddressMode::AbsoluteY
    );
    assert_eq!(
        operand(OperandMode::Accumulator, Value::Accumulator).address_mode(false),
        AddressMode::Accumulator
    );
    assert_eq!(
        operand(OperandMode::Immediate, Value::Word(1)).address_mode(false),
        AddressMode::Immediate
    );
    assert_eq!(
        operand(OperandMode::Indirect, Value::Byte(1)).address_mode(false),
        AddressMode::Indirect
    );
    assert_eq!(
        operand(OperandMode::XIndirect, Value::Byte(1)).address_mode(false),
        AddressMode::XIndirect
    );
    assert_eq!(
        operand(OperandMode::IndirectY, Value::Byte(1)).address_mode(false),
        AddressMode::IndirectY
    );
    let modified = Operand {
        mode: OperandMode::Address,
        modifier: Some(Spanned::new((Modifier::LowByte, 0..1))),
        value: Spanned::new((Value::Word(0x1234), 1..6)),
    };
    assert_eq!(modified.address_mode(false), AddressMode::Absolute);
}

#[test]
fn names_of_address_modes() {
    assert_eq!(AddressMode::Zeropage.string_rep(Mnemonic::Bne), "Relative");
    assert_eq!(AddressMode::Zeropage.string_rep(Mnemonic::Lda), "Zeropage");
    assert_eq!(AddressMode::AbsoluteX.string_rep(Mnemonic::Lda), "Absolute, X-Indexed");
    assert_eq!(AddressMode::AbsoluteY.string_rep(Mnemonic::Bne), "Absolute, Y-Indexed");
    assert_eq!(AddressMode::XIndirect.string_rep(Mnemonic::Lda), "X-indexed, indirect");
    assert_eq!(AddressMode::IndirectY.string_rep(Mnemonic::Lda), "Indirect, Y-indexed");
    assert_eq!(AddressMode::ZeropageX.string_rep(Mnemonic::Lda), "Zeropage, X-indexed");
    assert_eq!(AddressMode::ZeropageY.string_rep(Mnemonic::Lda), "Zeropage, Y-indexed");
    assert_eq!(AddressMode::Implied.string_rep(Mnemonic::Nop), "Implied");
    assert_eq!(AddressMode::Immediate.string_rep(Mnemonic::Lda), "Immediate");
    assert_eq!(AddressMode::Indirect.string_rep(Mnemonic::Jmp), "Indirect");
    assert_eq!(AddressMode::Accumulator.string_rep(Mnemonic::Asl), "Accumulator");
    assert_eq!(AddressMode::Absolute.string_rep(Mnemonic::Jmp), "Absolute");
}

#[test]
fn implied_and_branch_mnemonics() {
    assert!(Mnemonic::Nop.is_implied());
    assert!(Mnemonic::Tya.is_implied());
    assert!(!Mnemonic::Hlt.is_implied());
    assert!(!Mnemonic::Lda.is_implied());
    assert!(Mnemonic::Bvs.is_branch());
    assert!(Mnemonic::Bcc.is_branch());
    assert!(!Mnemonic::Bit.is_branch());
    assert!(!Mnemonic::Brk.is_branch());
}

#[test]
fn opcode_matrix() {
    assert_eq!(opcode(Mnemonic::Adc, AddressMode::Immediate), Some(0x69));
    assert_eq!(opcode(Mnemonic::Jmp, AddressMode::Indirect), Some(0x6c));
    assert_eq!(opcode(Mnemonic::Hlt, AddressMode::Implied), Some(0x02));
    assert_eq!(opcode(Mnemonic::Bne, AddressMode::Zeropage), Some(0xd0));
    assert_eq!(opcode(Mnemonic::Sta, AddressMode::Immediate), None);
    assert_eq!(opcode(Mnemonic::Dfb, AddressMode::Zeropage), None);
    assert_eq!(opcode(Mnemonic::Org, AddressMode::Absolute), None);
}
