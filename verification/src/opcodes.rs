//! The opcode matrix of the 6502: which byte encodes a mnemonic in an
//! address mode.

use crate::ast::{AddressMode, Mnemonic};
use vstd::prelude::*;

verus! {

/// The opcode of `mnemonic` in `mode`; `None` where the processor has no such
/// instruction. Directives have no opcode in any mode.
pub open spec fn opcode_of(mnemonic: Mnemonic, mode: AddressMode) -> Option<u8> {
    match (mnemonic, mode) {
        (Mnemonic::Adc, AddressMode::Absolute) => Some(0x6d),
        (Mnemonic::Adc, AddressMode::AbsoluteX) => Some(0x7d),
        (Mnemonic::Adc, AddressMode::AbsoluteY) => Some(0x79),
        (Mnemonic::Adc, AddressMode::Immediate) => Some(0x69),
        (Mnemonic::Adc, AddressMode::XIndirect) => Some(0x61),
        (Mnemonic::Adc, AddressMode::IndirectY) => Some(0x71),
        (Mnemonic::Adc, AddressMode::Zeropage) => Some(0x65),
        (Mnemonic::Adc, AddressMode::ZeropageX) => Some(0x75),
        (Mnemonic::And, AddressMode::Absolute) => Some(0x2d),
        (Mnemonic::And, AddressMode::AbsoluteX) => Some(0x3d),
        (Mnemonic::And, AddressMode::AbsoluteY) => Some(0x39),
        (Mnemonic::And, AddressMode::Immediate) => Some(0x29),
        (Mnemonic::And, AddressMode::XIndirect) => Some(0x21),
        (Mnemonic::And, AddressMode::IndirectY) => Some(0x31),
        (Mnemonic::And, AddressMode::Zeropage) => Some(0x25),
        (Mnemonic::And, AddressMode::ZeropageX) => Some(0x35),
        (Mnemonic::Asl, AddressMode::Accumulator) => Some(0x0a),
        (Mnemonic::Asl, AddressMode::Absolute) => Some(0x0e),
        (Mnemonic::Asl, AddressMode::AbsoluteX) => Some(0x1e),
        (Mnemonic::Asl, AddressMode::Zeropage) => Some(0x06),
        (Mnemonic::Asl, AddressMode::ZeropageX) => Some(0x16),
        (Mnemonic::Bcc, AddressMode::Zeropage) => Some(0x90),
        (Mnemonic::Bcs, AddressMode::Zeropage) => Some(0xb0),
        (Mnemonic::Beq, AddressMode::Zeropage) => Some(0xf0),
        (Mnemonic::Bit, AddressMode::Absolute) => Some(0x2c),
        (Mnemonic::Bit, AddressMode::Zeropage) => Some(0x24),
        (Mnemonic::Bmi, AddressMode::Zeropage) => Some(0x30),
        (Mnemonic::Bne, AddressMode::Zeropage) => Some(0xd0),
        (Mnemonic::Bpl, AddressMode::Zeropage) => Some(0x10),
        (Mnemonic::Brk, AddressMode::Implied) => Some(0x00),
        (Mnemonic::Bvc, AddressMode::Zeropage) => Some(0x50),
        (Mnemonic::Bvs, AddressMode::Zeropage) => Some(0x70),
        (Mnemonic::Clc, AddressMode::Implied) => Some(0x18),
        (Mnemonic::Cld, AddressMode::Implied) => Some(0xd8),
        (Mnemonic::Cli, AddressMode::Implied) => Some(0x58),
        (Mnemonic::Clv, AddressMode::Implied) => Some(0xb8),
        (Mnemonic::Cmp, AddressMode::Absolute) => Some(0xcd),
        (Mnemonic::Cmp, AddressMode::AbsoluteX) => Some(0xdd),
        (Mnemonic::Cmp, AddressMode::AbsoluteY) => Some(0xd9),
        (Mnemonic::Cmp, AddressMode::Immediate) => Some(0xc9),
        (Mnemonic::Cmp, AddressMode::XIndirect) => Some(0xc1),
        (Mnemonic::Cmp, AddressMode::IndirectY) => Some(0xd1),
        (Mnemonic::Cmp, AddressMode::Zeropage) => Some(0xc5),
        (Mnemonic::Cmp, AddressMode::ZeropageX) => Some(0xd5),
        (Mnemonic::Cpx, AddressMode::Absolute) => Some(0xec),
        (Mnemonic::Cpx, AddressMode::Immediate) => Some(0xe0),
        (Mnemonic::Cpx, AddressMode::Zeropage) => Some(0xe4),
        (Mnemonic::Cpy, AddressMode::Absolute) => Some(0xcc),
        (Mnemonic::Cpy, AddressMode::Immediate) => Some(0xc0),
        (Mnemonic::Cpy, AddressMode::Zeropage) => Some(0xc4),
        (Mnemonic::Dec, AddressMode::Absolute) => Some(0xce),
        (Mnemonic::Dec, AddressMode::AbsoluteX) => Some(0xde),
        (Mnemonic::Dec, AddressMode::Zeropage) => Some(0xc6),
        (Mnemonic::Dec, AddressMode::ZeropageX) => Some(0xd6),
        (Mnemonic::Dex, AddressMode::Implied) => Some(0xca),
        (Mnemonic::Dey, AddressMode::Implied) => Some(0x88),
        (Mnemonic::Eor, AddressMode::Absolute) => Some(0x4d),
        (Mnemonic::Eor, AddressMode::AbsoluteX) => Some(0x5d),
        (Mnemonic::Eor, AddressMode::AbsoluteY) => Some(0x59),
        (Mnemonic::Eor, AddressMode::Immediate) => Some(0x49),
        (Mnemonic::Eor, AddressMode::XIndirect) => Some(0x41),
        (Mnemonic::Eor, AddressMode::IndirectY) => Some(0x51),
        (Mnemonic::Eor, AddressMode::Zeropage) => Some(0x45),
        (Mnemonic::Eor, AddressMode::ZeropageX) => Some(0x55),
        (Mnemonic::Inc, AddressMode::Absolute) => Some(0xee),
        (Mnemonic::Inc, AddressMode::AbsoluteX) => Some(0xfe),
        (Mnemonic::Inc, AddressMode::Zeropage) => Some(0xe6),
        (Mnemonic::Inc, AddressMode::ZeropageX) => Some(0xf6),
        (Mnemonic::Inx, AddressMode::Implied) => Some(0xe8),
        (Mnemonic::Iny, AddressMode::Implied) => Some(0xc8),
        (Mnemonic::Jmp, AddressMode::Absolute) => Some(0x4c),
        (Mnemonic::Jmp, AddressMode::Indirect) => Some(0x6c),
        (Mnemonic::Jsr, AddressMode::Absolute) => Some(0x20),
        (Mnemonic::Lda, AddressMode::Absolute) => Some(0xad),
        (Mnemonic::Lda, AddressMode::AbsoluteX) => Some(0xbd),
        (Mnemonic::Lda, AddressMode::AbsoluteY) => Some(0xb9),
        (Mnemonic::Lda, AddressMode::Immediate) => Some(0xa9),
        (Mnemonic::Lda, AddressMode::XIndirect) => Some(0xa1),
        (Mnemonic::Lda, AddressMode::IndirectY) => Some(0xb1),
        (Mnemonic::Lda, AddressMode::Zeropage) => Some(0xa5),
        (Mnemonic::Lda, AddressMode::ZeropageX) => Some(0xb5),
        (Mnemonic::Ldx, AddressMode::Absolute) => Some(0xae),
        (Mnemonic::Ldx, AddressMode::AbsoluteY) => Some(0xbe),
        (Mnemonic::Ldx, AddressMode::Immediate) => Some(0xa2),
        (Mnemonic::Ldx, AddressMode::Zeropage) => Some(0xa6),
        (Mnemonic::Ldx, AddressMode::ZeropageY) => Some(0xb6),
        (Mnemonic::Ldy, AddressMode::Absolute) => Some(0xac),
        (Mnemonic::Ldy, AddressMode::AbsoluteX) => Some(0xbc),
        (Mnemonic::Ldy, AddressMode::Immediate) => Some(0xa0),
        (Mnemonic::Ldy, AddressMode::Zeropage) => Some(0xa4),
        (Mnemonic::Ldy, AddressMode::ZeropageX) => Some(0xb4),
        (Mnemonic::Lsr, AddressMode::Accumulator) => Some(0x4a),
        (Mnemonic::Lsr, AddressMode::Absolute) => Some(0x4e),
        (Mnemonic::Lsr, AddressMode::AbsoluteX) => Some(0x5e),
        (Mnemonic::Lsr, AddressMode::Zeropage) => Some(0x46),
        (Mnemonic::Lsr, AddressMode::ZeropageX) => Some(0x56),
        (Mnemonic::Nop, AddressMode::Implied) => Some(0xea),
        (Mnemonic::Ora, AddressMode::Absolute) => Some(0x0d),
        (Mnemonic::Ora, AddressMode::AbsoluteX) => Some(0x1d),
        (Mnemonic::Ora, AddressMode::AbsoluteY) => Some(0x19),
        (Mnemonic::Ora, AddressMode::Immediate) => Some(0x09),
        (Mnemonic::Ora, AddressMode::XIndirect) => Some(0x01),
        (Mnemonic::Ora, AddressMode::IndirectY) => Some(0x11),
        (Mnemonic::Ora, AddressMode::Zeropage) => Some(0x05),
        (Mnemonic::Ora, AddressMode::ZeropageX) => Some(0x15),
        (Mnemonic::Pha, AddressMode::Implied) => Some(0x48),
        (Mnemonic::Php, AddressMode::Implied) => Some(0x08),
        (Mnemonic::Pla, AddressMode::Implied) => Some(0x68),
        (Mnemonic::Plp, AddressMode::Implied) => Some(0x28),
        (Mnemonic::Rol, AddressMode::Accumulator) => Some(0x2a),
        (Mnemonic::Rol, AddressMode::Absolute) => Some(0x2e),
        (Mnemonic::Rol, AddressMode::AbsoluteX) => Some(0x3e),
        (Mnemonic::Rol, AddressMode::Zeropage) => Some(0x26),
        (Mnemonic::Rol, AddressMode::ZeropageX) => Some(0x36),
        (Mnemonic::Ror, AddressMode::Accumulator) => Some(0x6a),
        (Mnemonic::Ror, AddressMode::Absolute) => Some(0x6e),
        (Mnemonic::Ror, AddressMode::AbsoluteX) => Some(0x7e),
        (Mnemonic::Ror, AddressMode::Zeropage) => Some(0x66),
        (Mnemonic::Ror, AddressMode::ZeropageX) => Some(0x76),
        (Mnemonic::Rti, AddressMode::Implied) => Some(0x40),
        (Mnemonic::Rts, AddressMode::Implied) => Some(0x60),
        (Mnemonic::Sbc, AddressMode::Absolute) => Some(0xed),
        (Mnemonic::Sbc, AddressMode::AbsoluteX) => Some(0xfd),
        (Mnemonic::Sbc, AddressMode::AbsoluteY) => Some(0xf9),
        (Mnemonic::Sbc, AddressMode::Immediate) => Some(0xe9),
        (Mnemonic::Sbc, AddressMode::XIndirect) => Some(0xe1),
        (Mnemonic::Sbc, AddressMode::IndirectY) => Some(0xf1),
        (Mnemonic::Sbc, AddressMode::Zeropage) => Some(0xe5),
        (Mnemonic::Sbc, AddressMode::ZeropageX) => Some(0xf5),
        (Mnemonic::Sec, AddressMode::Implied) => Some(0x38),
        (Mnemonic::Sed, AddressMode::Implied) => Some(0xf8),
        (Mnemonic::Sei, AddressMode::Implied) => Some(0x78),
        (Mnemonic::Sta, AddressMode::Absolute) => Some(0x8d),
        (Mnemonic::Sta, AddressMode::AbsoluteX) => Some(0x9d),
        (Mnemonic::Sta, AddressMode::AbsoluteY) => Some(0x99),
        (Mnemonic::Sta, AddressMode::XIndirect) => Some(0x81),
        (Mnemonic::Sta, AddressMode::IndirectY) => Some(0x91),
        (Mnemonic::Sta, AddressMode::Zeropage) => Some(0x85),
        (Mnemonic::Sta, AddressMode::ZeropageX) => Some(0x95),
        (Mnemonic::Stx, AddressMode::Absolute) => Some(0x8e),
        (Mnemonic::Stx, AddressMode::Zeropage) => Some(0x86),
        (Mnemonic::Stx, AddressMode::ZeropageY) => Some(0x96),
        (Mnemonic::Sty, AddressMode::Absolute) => Some(0x8c),
        (Mnemonic::Sty, AddressMode::Zeropage) => Some(0x84),
        (Mnemonic::Sty, AddressMode::ZeropageX) => Some(0x94),
        (Mnemonic::Tax, AddressMode::Implied) => Some(0xaa),
        (Mnemonic::Tay, AddressMode::Implied) => Some(0xa8),
        (Mnemonic::Tsx, AddressMode::Implied) => Some(0xba),
        (Mnemonic::Txa, AddressMode::Implied) => Some(0x8a),
        (Mnemonic::Txs, AddressMode::Implied) => Some(0x9a),
        (Mnemonic::Tya, AddressMode::Implied) => Some(0x98),
        (Mnemonic::Hlt, AddressMode::Implied) => Some(0x02),
        _ => None,
    }
}

/// Looks the opcode of `mnemonic` in `mode` up.
pub fn opcode(mnemonic: Mnemonic, mode: AddressMode) -> (byte: Option<u8>)
    ensures
        byte == opcode_of(mnemonic, mode),
{
    match (mnemonic, mode) {
        (Mnemonic::Adc, AddressMode::Absolute) => Some(0x6d),
        (Mnemonic::Adc, AddressMode::AbsoluteX) => Some(0x7d),
        (Mnemonic::Adc, AddressMode::AbsoluteY) => Some(0x79),
        (Mnemonic::Adc, AddressMode::Immediate) => Some(0x69),
        (Mnemonic::Adc, AddressMode::XIndirect) => Some(0x61),
        (Mnemonic::Adc, AddressMode::IndirectY) => Some(0x71),
        (Mnemonic::Adc, AddressMode::Zeropage) => Some(0x65),
        (Mnemonic::Adc, AddressMode::ZeropageX) => Some(0x75),
        (Mnemonic::And, AddressMode::Absolute) => Some(0x2d),
        (Mnemonic::And, AddressMode::AbsoluteX) => Some(0x3d),
        (Mnemonic::And, AddressMode::AbsoluteY) => Some(0x39),
        (Mnemonic::And, AddressMode::Immediate) => Some(0x29),
        (Mnemonic::And, AddressMode::XIndirect) => Some(0x21),
        (Mnemonic::And, AddressMode::IndirectY) => Some(0x31),
        (Mnemonic::And, AddressMode::Zeropage) => Some(0x25),
        (Mnemonic::And, AddressMode::ZeropageX) => Some(0x35),
        (Mnemonic::Asl, AddressMode::Accumulator) => Some(0x0a),
        (Mnemonic::Asl, AddressMode::Absolute) => Some(0x0e),
        (Mnemonic::Asl, AddressMode::AbsoluteX) => Some(0x1e),
        (Mnemonic::Asl, AddressMode::Zeropage) => Some(0x06),
        (Mnemonic::Asl, AddressMode::ZeropageX) => Some(0x16),
        (Mnemonic::Bcc, AddressMode::Zeropage) => Some(0x90),
        (Mnemonic::Bcs, AddressMode::Zeropage) => Some(0xb0),
        (Mnemonic::Beq, AddressMode::Zeropage) => Some(0xf0),
        (Mnemonic::Bit, AddressMode::Absolute) => Some(0x2c),
        (Mnemonic::Bit, AddressMode::Zeropage) => Some(0x24),
        (Mnemonic::Bmi, AddressMode::Zeropage) => Some(0x30),
        (Mnemonic::Bne, AddressMode::Zeropage) => Some(0xd0),
        (Mnemonic::Bpl, AddressMode::Zeropage) => Some(0x10),
        (Mnemonic::Brk, AddressMode::Implied) => Some(0x00),
        (Mnemonic::Bvc, AddressMode::Zeropage) => Some(0x50),
        (Mnemonic::Bvs, AddressMode::Zeropage) => Some(0x70),
        (Mnemonic::Clc, AddressMode::Implied) => Some(0x18),
        (Mnemonic::Cld, AddressMode::Implied) => Some(0xd8),
        (Mnemonic::Cli, AddressMode::Implied) => Some(0x58),
        (Mnemonic::Clv, AddressMode::Implied) => Some(0xb8),
        (Mnemonic::Cmp, AddressMode::Absolute) => Some(0xcd),
        (Mnemonic::Cmp, AddressMode::AbsoluteX) => Some(0xdd),
        (Mnemonic::Cmp, AddressMode::AbsoluteY) => Some(0xd9),
        (Mnemonic::Cmp, AddressMode::Immediate) => Some(0xc9),
        (Mnemonic::Cmp, AddressMode::XIndirect) => Some(0xc1),
        (Mnemonic::Cmp, AddressMode::IndirectY) => Some(0xd1),
        (Mnemonic::Cmp, AddressMode::Zeropage) => Some(0xc5),
        (Mnemonic::Cmp, AddressMode::ZeropageX) => Some(0xd5),
        (Mnemonic::Cpx, AddressMode::Absolute) => Some(0xec),
        (Mnemonic::Cpx, AddressMode::Immediate) => Some(0xe0),
        (Mnemonic::Cpx, AddressMode::Zeropage) => Some(0xe4),
        (Mnemonic::Cpy, AddressMode::Absolute) => Some(0xcc),
        (Mnemonic::Cpy, AddressMode::Immediate) => Some(0xc0),
        (Mnemonic::Cpy, AddressMode::Zeropage) => Some(0xc4),
        (Mnemonic::Dec, AddressMode::Absolute) => Some(0xce),
        (Mnemonic::Dec, AddressMode::AbsoluteX) => Some(0xde),
        (Mnemonic::Dec, AddressMode::Zeropage) => Some(0xc6),
        (Mnemonic::Dec, AddressMode::ZeropageX) => Some(0xd6),
        (Mnemonic::Dex, AddressMode::Implied) => Some(0xca),
        (Mnemonic::Dey, AddressMode::Implied) => Some(0x88),
        (Mnemonic::Eor, AddressMode::Absolute) => Some(0x4d),
        (Mnemonic::Eor, AddressMode::AbsoluteX) => Some(0x5d),
        (Mnemonic::Eor, AddressMode::AbsoluteY) => Some(0x59),
        (Mnemonic::Eor, AddressMode::Immediate) => Some(0x49),
        (Mnemonic::Eor, AddressMode::XIndirect) => Some(0x41),
        (Mnemonic::Eor, AddressMode::IndirectY) => Some(0x51),
        (Mnemonic::Eor, AddressMode::Zeropage) => Some(0x45),
        (Mnemonic::Eor, AddressMode::ZeropageX) => Some(0x55),
        (Mnemonic::Inc, AddressMode::Absolute) => Some(0xee),
        (Mnemonic::Inc, AddressMode::AbsoluteX) => Some(0xfe),
        (Mnemonic::Inc, AddressMode::Zeropage) => Some(0xe6),
        (Mnemonic::Inc, AddressMode::ZeropageX) => Some(0xf6),
        (Mnemonic::Inx, AddressMode::Implied) => Some(0xe8),
        (Mnemonic::Iny, AddressMode::Implied) => Some(0xc8),
        (Mnemonic::Jmp, AddressMode::Absolute) => Some(0x4c),
        (Mnemonic::Jmp, AddressMode::Indirect) => Some(0x6c),
        (Mnemonic::Jsr, AddressMode::Absolute) => Some(0x20),
        (Mnemonic::Lda, AddressMode::Absolute) => Some(0xad),
        (Mnemonic::Lda, AddressMode::AbsoluteX) => Some(0xbd),
        (Mnemonic::Lda, AddressMode::AbsoluteY) => Some(0xb9),
        (Mnemonic::Lda, AddressMode::Immediate) => Some(0xa9),
        (Mnemonic::Lda, AddressMode::XIndirect) => Some(0xa1),
        (Mnemonic::Lda, AddressMode::IndirectY) => Some(0xb1),
        (Mnemonic::Lda, AddressMode::Zeropage) => Some(0xa5),
        (Mnemonic::Lda, AddressMode::ZeropageX) => Some(0xb5),
        (Mnemonic::Ldx, AddressMode::Absolute) => Some(0xae),
        (Mnemonic::Ldx, AddressMode::AbsoluteY) => Some(0xbe),
        (Mnemonic::Ldx, AddressMode::Immediate) => Some(0xa2),
        (Mnemonic::Ldx, AddressMode::Zeropage) => Some(0xa6),
        (Mnemonic::Ldx, AddressMode::ZeropageY) => Some(0xb6),
        (Mnemonic::Ldy, AddressMode::Absolute) => Some(0xac),
        (Mnemonic::Ldy, AddressMode::AbsoluteX) => Some(0xbc),
        (Mnemonic::Ldy, AddressMode::Immediate) => Some(0xa0),
        (Mnemonic::Ldy, AddressMode::Zeropage) => Some(0xa4),
        (Mnemonic::Ldy, AddressMode::ZeropageX) => Some(0xb4),
        (Mnemonic::Lsr, AddressMode::Accumulator) => Some(0x4a),
        (Mnemonic::Lsr, AddressMode::Absolute) => Some(0x4e),
        (Mnemonic::Lsr, AddressMode::AbsoluteX) => Some(0x5e),
        (Mnemonic::Lsr, AddressMode::Zeropage) => Some(0x46),
        (Mnemonic::Lsr, AddressMode::ZeropageX) => Some(0x56),
        (Mnemonic::Nop, AddressMode::Implied) => Some(0xea),
        (Mnemonic::Ora, AddressMode::Absolute) => Some(0x0d),
        (Mnemonic::Ora, AddressMode::AbsoluteX) => Some(0x1d),
        (Mnemonic::Ora, AddressMode::AbsoluteY) => Some(0x19),
        (Mnemonic::Ora, AddressMode::Immediate) => Some(0x09),
        (Mnemonic::Ora, AddressMode::XIndirect) => Some(0x01),
        (Mnemonic::Ora, AddressMode::IndirectY) => Some(0x11),
        (Mnemonic::Ora, AddressMode::Zeropage) => Some(0x05),
        (Mnemonic::Ora, AddressMode::ZeropageX) => Some(0x15),
        (Mnemonic::Pha, AddressMode::Implied) => Some(0x48),
        (Mnemonic::Php, AddressMode::Implied) => Some(0x08),
        (Mnemonic::Pla, AddressMode::Implied) => Some(0x68),
        (Mnemonic::Plp, AddressMode::Implied) => Some(0x28),
        (Mnemonic::Rol, AddressMode::Accumulator) => Some(0x2a),
        (Mnemonic::Rol, AddressMode::Absolute) => Some(0x2e),
        (Mnemonic::Rol, AddressMode::AbsoluteX) => Some(0x3e),
        (Mnemonic::Rol, AddressMode::Zeropage) => Some(0x26),
        (Mnemonic::Rol, AddressMode::ZeropageX) => Some(0x36),
        (Mnemonic::Ror, AddressMode::Accumulator) => Some(0x6a),
        (Mnemonic::Ror, AddressMode::Absolute) => Some(0x6e),
        (Mnemonic::Ror, AddressMode::AbsoluteX) => Some(0x7e),
        (Mnemonic::Ror, AddressMode::Zeropage) => Some(0x66),
        (Mnemonic::Ror, AddressMode::ZeropageX) => Some(0x76),
        (Mnemonic::Rti, AddressMode::Implied) => Some(0x40),
        (Mnemonic::Rts, AddressMode::Implied) => Some(0x60),
        (Mnemonic::Sbc, AddressMode::Absolute) => Some(0xed),
        (Mnemonic::Sbc, AddressMode::AbsoluteX) => Some(0xfd),
        (Mnemonic::Sbc, AddressMode::AbsoluteY) => Some(0xf9),
        (Mnemonic::Sbc, AddressMode::Immediate) => Some(0xe9),
        (Mnemonic::Sbc, AddressMode::XIndirect) => Some(0xe1),
        (Mnemonic::Sbc, AddressMode::IndirectY) => Some(0xf1),
        (Mnemonic::Sbc, AddressMode::Zeropage) => Some(0xe5),
        (Mnemonic::Sbc, AddressMode::ZeropageX) => Some(0xf5),
        (Mnemonic::Sec, AddressMode::Implied) => Some(0x38),
        (Mnemonic::Sed, AddressMode::Implied) => Some(0xf8),
        (Mnemonic::Sei, AddressMode::Implied) => Some(0x78),
        (Mnemonic::Sta, AddressMode::Absolute) => Some(0x8d),
        (Mnemonic::Sta, AddressMode::AbsoluteX) => Some(0x9d),
        (Mnemonic::Sta, AddressMode::AbsoluteY) => Some(0x99),
        (Mnemonic::Sta, AddressMode::XIndirect) => Some(0x81),
        (Mnemonic::Sta, AddressMode::IndirectY) => Some(0x91),
        (Mnemonic::Sta, AddressMode::Zeropage) => Some(0x85),
        (Mnemonic::Sta, AddressMode::ZeropageX) => Some(0x95),
        (Mnemonic::Stx, AddressMode::Absolute) => Some(0x8e),
        (Mnemonic::Stx, AddressMode::Zeropage) => Some(0x86),
        (Mnemonic::Stx, AddressMode::ZeropageY) => Some(0x96),
        (Mnemonic::Sty, AddressMode::Absolute) => Some(0x8c),
        (Mnemonic::Sty, AddressMode::Zeropage) => Some(0x84),
        (Mnemonic::Sty, AddressMode::ZeropageX) => Some(0x94),
        (Mnemonic::Tax, AddressMode::Implied) => Some(0xaa),
        (Mnemonic::Tay, AddressMode::Implied) => Some(0xa8),
        (Mnemonic::Tsx, AddressMode::Implied) => Some(0xba),
        (Mnemonic::Txa, AddressMode::Implied) => Some(0x8a),
        (Mnemonic::Txs, AddressMode::Implied) => Some(0x9a),
        (Mnemonic::Tya, AddressMode::Implied) => Some(0x98),
        (Mnemonic::Hlt, AddressMode::Implied) => Some(0x02),
        _ => None,
    }
}

/// A mnemonic that takes no operand has an opcode in the implied mode.
pub proof fn lemma_implied_has_opcode(mnemonic: Mnemonic)
    requires
        mnemonic.spec_is_implied(),
    ensures
        opcode_of(mnemonic, AddressMode::Implied) is Some,
{
}

/// A branch has one opcode, that of its relative mode, which is looked up as
/// the zero page.
pub proof fn lemma_branch_is_relative_only(mnemonic: Mnemonic, mode: AddressMode)
    requires
        mnemonic.spec_is_branch(),
    ensures
        opcode_of(mnemonic, mode) is Some <==> mode == AddressMode::Zeropage,
{
}

/// The directives have no opcode.
pub proof fn lemma_directives_have_no_opcode(mnemonic: Mnemonic, mode: AddressMode)
    requires
        matches!(
            mnemonic,
            Mnemonic::Dfb | Mnemonic::Dfw | Mnemonic::Equ | Mnemonic::Inl | Mnemonic::Org
                | Mnemonic::Sct
        ),
    ensures
        opcode_of(mnemonic, mode) is None,
{
}

/// No two instructions share an opcode.
pub proof fn lemma_opcodes_are_distinct(
    first: Mnemonic,
    first_mode: AddressMode,
    second: Mnemonic,
    second_mode: AddressMode,
)
    requires
        opcode_of(first, first_mode) is Some,
        opcode_of(first, first_mode) == opcode_of(second, second_mode),
    ensures
        first == second,
        first_mode == second_mode,
{
}

} // verus!
