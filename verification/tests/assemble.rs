use s502_as::ast::{Include, Location};
use s502_as::binary::emit_binary;
use s502_as::generation::GeneratorContext;
use s502_as::parser::ParserContext;
use s502_as::sources::{SourceFile, SourceText};

fn assemble_with(name: &str, sources: Vec<SourceFile>) -> Vec<u8> {
    let source = match &sources.iter().find(|file| file.name == name).unwrap().contents {
        SourceText::Read(text) => text.clone(),
        SourceText::Failed(reason) => panic!("{}", reason),
    };
    let stack = vec![Include {
        included: name.to_string(),
        loc: Location {
            span: 0..1,
            file_name: "<command line>".to_string(),
        },
    }];
    let program = ParserContext::new(name.to_string(), &source, &sources, stack)
        .parse_program()
        .unwrap();
    let (mut object, _listing) = GeneratorContext::new(program, true, name.to_string(), &sources)
        .generate_code()
        .unwrap();
    emit_binary(&mut object[0]).unwrap()
}

fn assemble(source: &str) -> Vec<u8> {
    assemble_with(
        "test.65a",
        vec![SourceFile {
            name: "test.65a".to_string(),
            contents: SourceText::Read(source.to_string()),
        }],
    )
}

#[test]
fn byte_macro() {
    assert_eq!(
        assemble("mac1 equ $1\nmac2 equ $2\nmac3 equ <$3040\nmac4 equ >mac3\n\nadc mac1\nadc #mac2\nadc mac3,x\nadc #mac4\n"),
        vec![0x65, 0x01, 0x69, 0x02, 0x75, 0x30, 0x69, 0x30]
    );
}

#[test]
fn word_macro() {
    assert_eq!(
        assemble("mac1 equ $100\nmac2 equ $203\n\nadc mac1\nadc #<mac2\nadc mac2,x\nadc >mac2,x\n"),
        vec![0x6d, 0x00, 0x01, 0x69, 0x02, 0x7d, 0x03, 0x02, 0x75, 0x03]
    );
}

#[test]
fn bytes() {
    assert_eq!(
        assemble("dfb $10\ndfw $2030\ndfb \" !\\\"#$%&'()*+,-./0123456789:;<=>?@abcdefghijklmnopqrstuvwxyz[\\\\]^_\"\ndfb \"\\f !\\\"#$%&'()*+,-./0123456789:;<=>?@abcdefghijklmnopqrstuvwxyz[\\\\]^_\"\ndfb \"\\i !\\\"#$%&'()*+,-./0123456789:;<=>?@abcdefghijklmnopqrstuvwxyz[\\\\]^_\"\n"),
        vec![0x10, 0x30, 0x20, 0xa0, 0xa1, 0xa2, 0xa3, 0xa4, 0xa5, 0xa6, 0xa7, 0xa8, 0xa9, 0xaa, 0xab, 0xac, 0xad, 0xae, 0xaf, 0xb0, 0xb1, 0xb2, 0xb3, 0xb4, 0xb5, 0xb6, 0xb7, 0xb8, 0xb9, 0xba, 0xbb, 0xbc, 0xbd, 0xbe, 0xbf, 0xc0, 0xc1, 0xc2, 0xc3, 0xc4, 0xc5, 0xc6, 0xc7, 0xc8, 0xc9, 0xca, 0xcb, 0xcc, 0xcd, 0xce, 0xcf, 0xd0, 0xd1, 0xd2, 0xd3, 0xd4, 0xd5, 0xd6, 0xd7, 0xd8, 0xd9, 0xda, 0xdb, 0xdc, 0xdd, 0xde, 0xdf, 0x60, 0x61, 0x62, 0x63, 0x64, 0x65, 0x66, 0x67, 0x68, 0x69, 0x6a, 0x6b, 0x6c, 0x6d, 0x6e, 0x6f, 0x70, 0x71, 0x72, 0x73, 0x74, 0x75, 0x76, 0x77, 0x78, 0x79, 0x7a, 0x7b, 0x7c, 0x7d, 0x7e, 0x7f, 0x40, 0x41, 0x42, 0x43, 0x44, 0x45, 0x46, 0x47, 0x48, 0x49, 0x4a, 0x4b, 0x4c, 0x4d, 0x4e, 0x4f, 0x50, 0x51, 0x52, 0x53, 0x54, 0x55, 0x56, 0x57, 0x58, 0x59, 0x5a, 0x5b, 0x5c, 0x5d, 0x5e, 0x5f, 0x20, 0x21, 0x22, 0x23, 0x24, 0x25, 0x26, 0x27, 0x28, 0x29, 0x2a, 0x2b, 0x2c, 0x2d, 0x2e, 0x2f, 0x30, 0x31, 0x32, 0x33, 0x34, 0x35, 0x36, 0x37, 0x38, 0x39, 0x3a, 0x3b, 0x3c, 0x3d, 0x3e, 0x3f, 0x00, 0x01, 0x02, 0x03, 0x04, 0x05, 0x06, 0x07, 0x08, 0x09, 0x0a, 0x0b, 0x0c, 0x0d, 0x0e, 0x0f, 0x10, 0x11, 0x12, 0x13, 0x14, 0x15, 0x16, 0x17, 0x18, 0x19, 0x1a, 0x1b, 0x1c, 0x1d, 0x1e, 0x1f,]
    );
}

#[test]
fn origin() {
    assert_eq!(
        assemble("    org $1030\none\n    dfw one\n\n    org $1040\ntwo\n    dfw two\n\n    org $1020\nthree\n    dfw three\n"),
        vec![0x20, 0x10, 0x00, 0x00, 0x00, 0x00, 0x00, 0x00, 0x00, 0x00, 0x00, 0x00, 0x00, 0x00, 0x00, 0x00, 0x30, 0x10, 0x00, 0x00, 0x00, 0x00, 0x00, 0x00, 0x00, 0x00, 0x00, 0x00, 0x00, 0x00, 0x00, 0x00, 0x40, 0x10]
    );
}

#[test]
fn parent() {
    assert_eq!(
        assemble("* full line comment\none             comment after label\n    dfb $10     comment after instruction\ntwo\n    dfw $2030\n\n    adc one\n    adc two\n    jmp two\n    adc #<one\n    adc #>two\n"),
        vec![0x10, 0x30, 0x20, 0x6d, 0x00, 0x00, 0x6d, 0x01, 0x00, 0x4c, 0x01, 0x00, 0x69, 0x00, 0x69, 0x01]
    );
}

#[test]
fn child() {
    assert_eq!(
        assemble("one\n    dfb $10\n.two\n    dfw $2030\none.three\n\n    jmp one\n    jmp .two\n    adc #>.three\n"),
        vec![0x10, 0x30, 0x20, 0x4c, 0x00, 0x00, 0x4c, 0x01, 0x00, 0x69, 0x03]
    );
}

#[test]
fn high() {
    assert_eq!(
        assemble("adc #<$1\nadc <$2\nadc <$3,x\nadc <$100\nadc <$200,x\nadc (<$4,x)\nadc (<$5),y\n"),
        vec![0x69, 0x01, 0x65, 0x02, 0x75, 0x03, 0x65, 0x01, 0x75, 0x02, 0x61, 0x04, 0x71, 0x05]
    );
}

#[test]
fn low() {
    assert_eq!(
        assemble("adc #>$1\nadc >$2\nadc >$3,x\nadc >$120\nadc >$230,x\nadc (>$4,x)\nadc (>$5),y\n"),
        vec![0x69, 0x01, 0x65, 0x02, 0x75, 0x03, 0x65, 0x20, 0x75, 0x30, 0x61, 0x04, 0x71, 0x05]
    );
}

#[test]
fn adc() {
    assert_eq!(
        assemble("adc #$1\nadc $2\nadc $3,x\nadc $100\nadc $200,x\nadc $300,y\nadc ($4,x)\nadc ($5),y\n"),
        vec![0x69, 0x01, 0x65, 0x02, 0x75, 0x03, 0x6d, 0x00, 0x01, 0x7d, 0x00, 0x02, 0x79, 0x00, 0x03, 0x61, 0x04, 0x71, 0x05]
    );
}

#[test]
fn and() {
    assert_eq!(
        assemble("and #$1\nand $2\nand $3,x\nand $100\nand $200,x\nand $300,y\nand ($4,x)\nand ($5),y\n"),
        vec![0x29, 0x01, 0x25, 0x02, 0x35, 0x03, 0x2d, 0x00, 0x01, 0x3d, 0x00, 0x02, 0x39, 0x00, 0x03, 0x21, 0x04, 0x31, 0x05]
    );
}

#[test]
fn asl() {
    assert_eq!(
        assemble("asl a\nasl $2\nasl $3,x\nasl $100\nasl $200,x\n"),
        vec![0x0a, 0x06, 0x02, 0x16, 0x03, 0x0e, 0x00, 0x01, 0x1e, 0x00, 0x02]
    );
}

#[test]
fn bcc() {
    assert_eq!(
        assemble("bcc $10\n"),
        vec![0x90, 0x10]
    );
}

#[test]
fn bcs() {
    assert_eq!(
        assemble("bcs $10\n"),
        vec![0xb0, 0x10]
    );
}

#[test]
fn beq() {
    assert_eq!(
        assemble("beq $10\n"),
        vec![0xf0, 0x10]
    );
}

#[test]
fn bit() {
    assert_eq!(
        assemble("bit $10\nbit $100\n"),
        vec![0x24, 0x10, 0x2c, 0x00, 0x01]
    );
}

#[test]
fn bmi() {
    assert_eq!(
        assemble("bmi $10\n"),
        vec![0x30, 0x10]
    );
}

#[test]
fn bne() {
    assert_eq!(
        assemble("bne $10\n"),
        vec![0xd0, 0x10]
    );
}

#[test]
fn bpl() {
    assert_eq!(
        assemble("bpl $10\n"),
        vec![0x10, 0x10]
    );
}

#[test]
fn brk() {
    assert_eq!(
        assemble("brk\n"),
        vec![0x00]
    );
}

#[test]
fn bvc() {
    assert_eq!(
        assemble("bvc $10\n"),
        vec![0x50, 0x10]
    );
}

#[test]
fn bvs() {
    assert_eq!(
        assemble("bvs $10\n"),
        vec![0x70, 0x10]
    );
}

#[test]
fn clc() {
    assert_eq!(
        assemble("clc\n"),
        vec![0x18]
    );
}

#[test]
fn cld() {
    assert_eq!(
        assemble("cld\n"),
        vec![0xd8]
    );
}

#[test]
fn cli() {
    assert_eq!(
        assemble("cli\n"),
        vec![0x58]
    );
}

#[test]
fn clv() {
    assert_eq!(
        assemble("clv\n"),
        vec![0xb8]
    );
}

#[test]
fn cmp() {
    assert_eq!(
        assemble("cmp #$1\ncmp $2\ncmp $3,x\ncmp $100\ncmp $200,x\ncmp $300,y\ncmp ($4,x)\ncmp ($5),y\n"),
        vec![0xc9, 0x01, 0xc5, 0x02, 0xd5, 0x03, 0xcd, 0x00, 0x01, 0xdd, 0x00, 0x02, 0xd9, 0x00, 0x03, 0xc1, 0x04, 0xd1, 0x05]
    );
}

#[test]
fn cpx() {
    assert_eq!(
        assemble("cpx #$1\ncpx $2\ncpx $100\n"),
        vec![0xe0, 0x01, 0xe4, 0x02, 0xec, 0x00, 0x01]
    );
}

#[test]
fn cpy() {
    assert_eq!(
        assemble("cpy #$1\ncpy $2\ncpy $100\n"),
        vec![0xc0, 0x01, 0xc4, 0x02, 0xcc, 0x00, 0x01]
    );
}

#[test]
fn dec() {
    assert_eq!(
        assemble("dec $2\ndec $3,x\ndec $100\ndec $200,x\n"),
        vec![0xc6, 0x02, 0xd6, 0x03, 0xce, 0x00, 0x01, 0xde, 0x00, 0x02]
    );
}

#[test]
fn dex() {
    assert_eq!(
        assemble("dex\n"),
        vec![0xca]
    );
}

#[test]
fn dey() {
    assert_eq!(
        assemble("dey\n"),
        vec![0x88]
    );
}

#[test]
fn eor() {
    assert_eq!(
        assemble("eor #$1\neor $2\neor $3,x\neor $100\neor $200,x\neor $300,y\neor ($4,x)\neor ($5),y\n"),
        vec![0x49, 0x01, 0x45, 0x02, 0x55, 0x03, 0x4d, 0x00, 0x01, 0x5d, 0x00, 0x02, 0x59, 0x00, 0x03, 0x41, 0x04, 0x51, 0x05]
    );
}

#[test]
fn inc() {
    assert_eq!(
        assemble("inc $2\ninc $3,x\ninc $100\ninc $200,x\n"),
        vec![0xe6, 0x02, 0xf6, 0x03, 0xee, 0x00, 0x01, 0xfe, 0x00, 0x02]
    );
}

#[test]
fn inx() {
    assert_eq!(
        assemble("inx\n"),
        vec![0xe8]
    );
}

#[test]
fn iny() {
    assert_eq!(
        assemble("iny\n"),
        vec![0xc8]
    );
}

#[test]
fn jmp() {
    assert_eq!(
        assemble("jmp $100\njmp ($200)\n"),
        vec![0x4c, 0x00, 0x01, 0x6c, 0x00, 0x02]
    );
}

#[test]
fn jsr() {
    assert_eq!(
        assemble("jsr $100\n"),
        vec![0x20, 0x00, 0x01]
    );
}

#[test]
fn lda() {
    assert_eq!(
        assemble("lda #$1\nlda $2\nlda $3,x\nlda $100\nlda $200,x\nlda $300,y\nlda ($4,x)\nlda ($5),y\n"),
        vec![0xa9, 0x01, 0xa5, 0x02, 0xb5, 0x03, 0xad, 0x00, 0x01, 0xbd, 0x00, 0x02, 0xb9, 0x00, 0x03, 0xa1, 0x04, 0xb1, 0x05]
    );
}

#[test]
fn ldx() {
    assert_eq!(
        assemble("ldx #$1\nldx $2\nldx $3,y\nldx $100\nldx $200,y\n"),
        vec![0xa2, 0x01, 0xa6, 0x02, 0xb6, 0x03, 0xae, 0x00, 0x01, 0xbe, 0x00, 0x02]
    );
}

#[test]
fn ldy() {
    assert_eq!(
        assemble("ldy #$1\nldy $2\nldy $3,x\nldy $100\nldy $200,x\n"),
        vec![0xa0, 0x01, 0xa4, 0x02, 0xb4, 0x03, 0xac, 0x00, 0x01, 0xbc, 0x00, 0x02]
    );
}

#[test]
fn lsr() {
    assert_eq!(
        assemble("lsr a\nlsr $2\nlsr $3,x\nlsr $100\nlsr $200,x\n"),
        vec![0x4a, 0x46, 0x02, 0x56, 0x03, 0x4e, 0x00, 0x01, 0x5e, 0x00, 0x02]
    );
}

#[test]
fn nop() {
    assert_eq!(
        assemble("nop\n"),
        vec![0xea]
    );
}

#[test]
fn ora() {
    assert_eq!(
        assemble("ora #$1\nora $2\nora $3,x\nora $100\nora $200,x\nora $300,y\nora ($4,x)\nora ($5),y\n"),
        vec![0x09, 0x01, 0x05, 0x02, 0x15, 0x03, 0x0d, 0x00, 0x01, 0x1d, 0x00, 0x02, 0x19, 0x00, 0x03, 0x01, 0x04, 0x11, 0x05]
    );
}

#[test]
fn pha() {
    assert_eq!(
        assemble("pha\n"),
        vec![0x48]
    );
}

#[test]
fn php() {
    assert_eq!(
        assemble("php\n"),
        vec![0x08]
    );
}

#[test]
fn pla() {
    assert_eq!(
        assemble("pla\n"),
        vec![0x68]
    );
}

#[test]
fn plp() {
    assert_eq!(
        assemble("plp\n"),
        vec![0x28]
    );
}

#[test]
fn rol() {
    assert_eq!(
        assemble("rol a\nrol $2\nrol $3,x\nrol $100\nrol $200,x\n"),
        vec![0x2a, 0x26, 0x02, 0x36, 0x03, 0x2e, 0x00, 0x01, 0x3e, 0x00, 0x02]
    );
}

#[test]
fn ror() {
    assert_eq!(
        assemble("ror a\nror $2\nror $3,x\nror $100\nror $200,x\n"),
        vec![0x6a, 0x66, 0x02, 0x76, 0x03, 0x6e, 0x00, 0x01, 0x7e, 0x00, 0x02]
    );
}

#[test]
fn rti() {
    assert_eq!(
        assemble("rti\n"),
        vec![0x40]
    );
}

#[test]
fn rts() {
    assert_eq!(
        assemble("rts\n"),
        vec![0x60]
    );
}

#[test]
fn sbc() {
    assert_eq!(
        assemble("sbc #$1\nsbc $2\nsbc $3,x\nsbc $100\nsbc $200,x\nsbc $300,y\nsbc ($4,x)\nsbc ($5),y\n"),
        vec![0xe9, 0x01, 0xe5, 0x02, 0xf5, 0x03, 0xed, 0x00, 0x01, 0xfd, 0x00, 0x02, 0xf9, 0x00, 0x03, 0xe1, 0x04, 0xf1, 0x05]
    );
}

#[test]
fn sec() {
    assert_eq!(
        assemble("sec\n"),
        vec![0x38]
    );
}

#[test]
fn sed() {
    assert_eq!(
        assemble("sed\n"),
        vec![0xf8]
    );
}

#[test]
fn sei() {
    assert_eq!(
        assemble("sei\n"),
        vec![0x78]
    );
}

#[test]
fn sta() {
    assert_eq!(
        assemble("sta $2\nsta $3,x\nsta $100\nsta $200,x\nsta $300,y\nsta ($4,x)\nsta ($5),y\n"),
        vec![0x85, 0x02, 0x95, 0x03, 0x8d, 0x00, 0x01, 0x9d, 0x00, 0x02, 0x99, 0x00, 0x03, 0x81, 0x04, 0x91, 0x05]
    );
}

#[test]
fn stx() {
    assert_eq!(
        assemble("stx $2\nstx $3,y\nstx $100\n"),
        vec![0x86, 0x02, 0x96, 0x03, 0x8e, 0x00, 0x01]
    );
}

#[test]
fn sty() {
    assert_eq!(
        assemble("sty $2\nsty $3,x\nsty $100\n"),
        vec![0x84, 0x02, 0x94, 0x03, 0x8c, 0x00, 0x01]
    );
}

#[test]
fn tax() {
    assert_eq!(
        assemble("tax\n"),
        vec![0xaa]
    );
}

#[test]
fn tay() {
    assert_eq!(
        assemble("tay\n"),
        vec![0xa8]
    );
}

#[test]
fn tsx() {
    assert_eq!(
        assemble("tsx\n"),
        vec![0xba]
    );
}

#[test]
fn txa() {
    assert_eq!(
        assemble("txa\n"),
        vec![0x8a]
    );
}

#[test]
fn txs() {
    assert_eq!(
        assemble("txs\n"),
        vec![0x9a]
    );
}

#[test]
fn tya() {
    assert_eq!(
        assemble("tya\n"),
        vec![0x98]
    );
}

#[test]
fn include_file() {
    let sources = vec![
        SourceFile {
            name: "test_input/include_0.65a".to_string(),
            contents: SourceText::Read(
                "dfb $10\ninl \"test_input/include_1.65a\"\n".to_string(),
            ),
        },
        SourceFile {
            name: "test_input/include_1.65a".to_string(),
            contents: SourceText::Read("dfw $2030\n".to_string()),
        },
    ];
    assert_eq!(
        assemble_with("test_input/include_0.65a", sources),
        vec![0x10, 0x30, 0x20]
    );
}
