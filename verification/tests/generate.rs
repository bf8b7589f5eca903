use s502_as::ast::{
    Action, Include, Instruction, Label, Location, Mnemonic, Modifier, Operand, OperandMode,
    Spanned, TopLabel, Value, Visibility,
};
use s502_as::binary::{create_listing, create_symbol_table, emit_binary, resolve_references};
use s502_as::error::AssemblerError;
use s502_as::generation::{join, GeneratorContext, Listing};
use s502_as::parser::ParserContext;
use s502_as::section::{Reference, Section, SectionLabel, MEMORY_SIZE};
use s502_as::sources::{SourceFile, SourceText};

fn one_file(source: &str) -> Vec<SourceFile> {
    vec![SourceFile {
        name: "main.65a".to_string(),
        contents: SourceText::Read(source.to_string()),
    }]
}

fn parse(sources: &Vec<SourceFile>) -> Result<Vec<Action>, Vec<AssemblerError>> {
    let source = match &sources[0].contents {
        SourceText::Read(text) => text.clone(),
        SourceText::Failed(reason) => panic!("{}", reason),
    };
    let stack = vec![Include {
        included: sources[0].name.clone(),
        loc: Location { span: 0..1, file_name: "<command line>".to_string() },
    }];
    ParserContext::new(sources[0].name.clone(), &source, sources, stack).parse_program()
}

fn generate(
    source: &str,
    binary: bool,
) -> Result<(Vec<Section>, Vec<Listing>), Vec<AssemblerError>> {
    let sources = one_file(source);
    let program = parse(&sources).unwrap();
    GeneratorContext::new(program, binary, "main.65a".to_string(), &sources).generate_code()
}

fn errors_of(source: &str, binary: bool) -> Vec<AssemblerError> {
    generate(source, binary).err().unwrap()
}

fn here(span: std::ops::Range<usize>) -> Location {
    Location { span, file_name: "main.65a".to_string() }
}

fn label(name: &str, offset: usize) -> SectionLabel {
    SectionLabel { name: name.to_string(), visibility: Visibility::Object, offset }
}

#[test]
fn sublabels_are_named_after_their_parent() {
    let (object, _) = generate("top\n.one\ntop.two\nnext\n.one\n", true).unwrap();
    assert_eq!(
        object[0].labels,
        vec![
            label("top", 0),
            label("top.one", 0),
            label("top.two", 0),
            label("next", 0),
            label("next.one", 0),
        ]
    );
}

#[test]
fn sublabel_without_parent() {
    assert_eq!(
        errors_of(".lost\n", true),
        vec![AssemblerError {
            message: "No parent label to put sublabel under".to_string(),
            labels: vec![(here(1..5), None)],
            help: Some("Did you mean to create a parent label `lost`?".to_string()),
        }]
    );
}

#[test]
fn sublabel_with_another_parent() {
    assert_eq!(
        errors_of("top\nother.sub\n", true),
        vec![AssemblerError {
            message: "Explicit parent label does not match most recent parent label".to_string(),
            labels: vec![
                (here(4..9), Some("Found `other`".to_string())),
                (here(0..3), Some("Expected `top`".to_string())),
            ],
            help: Some("Change `other` to `top`".to_string()),
        }]
    );
}

#[test]
fn global_labels_keep_their_visibility() {
    let (object, _) = generate("!start\n nop\nlocal\n", true).unwrap();
    assert_eq!(
        object[0].labels,
        vec![
            SectionLabel {
                name: "start".to_string(),
                visibility: Visibility::Global,
                offset: 0
            },
            label("local", 1),
        ]
    );
}

#[test]
fn zero_page_iff_one_byte() {
    let (mut object, _) = generate("adc #$1\nadc $100\nadc $2,x\nadc $0002\n", true).unwrap();
    assert_eq!(
        emit_binary(&mut object[0]).unwrap(),
        vec![0x69, 0x01, 0x6d, 0x00, 0x01, 0x75, 0x02, 0x6d, 0x02, 0x00]
    );
}

#[test]
fn byte_macro_is_in_the_zero_page() {
    let (mut object, _) = generate("mac1 equ $1\nadc mac1\n", true).unwrap();
    assert_eq!(object[0].labels, vec![]);
    assert_eq!(emit_binary(&mut object[0]).unwrap(), vec![0x65, 0x01]);
}

#[test]
fn indirect_address_is_a_word() {
    let (mut object, _) = generate("zp equ $10\njmp ($20)\njmp (zp)\n", true).unwrap();
    assert_eq!(
        emit_binary(&mut object[0]).unwrap(),
        vec![0x6c, 0x20, 0x00, 0x6c, 0x10, 0x00]
    );
}

#[test]
fn string_macro_is_for_dfb() {
    let (mut object, _) = generate("text equ \"ab\"\ndfb text\n", true).unwrap();
    assert_eq!(emit_binary(&mut object[0]).unwrap(), vec![0xc1, 0xc2]);
    assert_eq!(
        errors_of("text equ \"ab\"\nlda text\n", true),
        vec![AssemblerError {
            message: "String operands are only allowed for the `dfb` and `inl` directives"
                .to_string(),
            labels: vec![(here(18..22), None)],
            help: None,
        }]
    );
}

#[test]
fn references_are_resolved_in_a_second_pass() {
    let (mut object, _) = generate(
        " jmp later\n lda #<later\n lda #>later\n bne later\n org $1234\nlater\n",
        true,
    )
    .unwrap();
    assert_eq!(
        object[0].references,
        vec![
            Reference {
                name: "later".to_string(),
                offset: 1,
                modifier: None,
                branch: false,
                location: here(5..10),
            },
            Reference {
                name: "later".to_string(),
                offset: 4,
                modifier: Some(Spanned::new((Modifier::HighByte, 17..18))),
                branch: false,
                location: here(16..23),
            },
            Reference {
                name: "later".to_string(),
                offset: 6,
                modifier: Some(Spanned::new((Modifier::LowByte, 30..31))),
                branch: false,
                location: here(29..36),
            },
            Reference {
                name: "later".to_string(),
                offset: 8,
                modifier: None,
                branch: true,
                location: here(42..47),
            },
        ]
    );
    let errors = resolve_references(&mut object[0]).unwrap_err();
    assert_eq!(
        errors,
        vec![AssemblerError {
            message: "The relative target is out of range, at `4651` bytes".to_string(),
            labels: vec![(here(42..47), None)],
            help: None,
        }]
    );
    assert_eq!(
        object[0].data[0..9].to_vec(),
        vec![0x4c, 0x34, 0x12, 0xa9, 0x12, 0xa9, 0x34, 0xd0, 0x00]
    );
}

fn branch_section(patch: usize, target: usize) -> Section {
    let mut section = Section::new("default".to_string());
    section.labels.push(label("there", target));
    section.references.push(Reference {
        name: "there".to_string(),
        offset: patch,
        modifier: None,
        branch: true,
        location: here(0..1),
    });
    section
}

#[test]
fn branch_reaches_its_bounds() {
    let mut forward = branch_section(0x100, 0x100 + 1 + 127);
    assert_eq!(resolve_references(&mut forward), Ok(()));
    assert_eq!(forward.data[0x100], 0x7f);

    let mut backward = branch_section(0x100, 0x100 + 1 - 128);
    assert_eq!(resolve_references(&mut backward), Ok(()));
    assert_eq!(backward.data[0x100], 0x80);

    let mut onto_itself = branch_section(0x100, 0x101);
    assert_eq!(resolve_references(&mut onto_itself), Ok(()));
    assert_eq!(onto_itself.data[0x100], 0x00);

    let mut one_back = branch_section(0x100, 0x100);
    assert_eq!(resolve_references(&mut one_back), Ok(()));
    assert_eq!(one_back.data[0x100], 0xff);
}

#[test]
fn branch_beyond_its_bounds() {
    let mut forward = branch_section(0x100, 0x100 + 1 + 128);
    assert_eq!(
        resolve_references(&mut forward),
        Err(vec![AssemblerError {
            message: "The relative target is out of range, at `128` bytes".to_string(),
            labels: vec![(here(0..1), None)],
            help: None,
        }])
    );
    assert_eq!(forward.data[0x100], 0x00);

    let mut backward = branch_section(0x100, 0x100 + 1 - 129);
    assert_eq!(
        resolve_references(&mut backward),
        Err(vec![AssemblerError {
            message: "The relative target is out of range, at `-129` bytes".to_string(),
            labels: vec![(here(0..1), None)],
            help: None,
        }])
    );
}

#[test]
fn missing_label() {
    let (mut object, _) = generate(" jsr nowhere\n", true).unwrap();
    assert_eq!(
        emit_binary(&mut object[0]),
        Err(vec![AssemblerError {
            message: "Label `nowhere` being referenced does not exist".to_string(),
            labels: vec![(here(5..12), None)],
            help: None,
        }])
    );
}

#[test]
fn label_placed_last_counts() {
    let mut section = Section::new("default".to_string());
    section.labels.push(label("twice", 0x10));
    section.labels.push(label("twice", 0x0220));
    section.references.push(Reference {
        name: "twice".to_string(),
        offset: 5,
        modifier: None,
        branch: false,
        location: here(0..1),
    });
    assert_eq!(section.find_label(&"twice".to_string()), Some(0x0220));
    assert_eq!(section.find_label(&"never".to_string()), None);
    assert_eq!(resolve_references(&mut section), Ok(()));
    assert_eq!(section.data[5..7].to_vec(), vec![0x20, 0x02]);
}

#[test]
fn dfb_and_dfw_operands() {
    assert_eq!(
        errors_of(" dfb $1234\n", true),
        vec![AssemblerError {
            message: "The `dfb` directive expects a byte operand".to_string(),
            labels: vec![(here(5..10), None)],
            help: None,
        }]
    );
    assert_eq!(
        errors_of(" dfb later\n", true),
        vec![AssemblerError {
            message: "The `dfb` directive expects a byte operand".to_string(),
            labels: vec![(
                here(5..10),
                Some("Referenced symbol is assumed to be a word".to_string())
            )],
            help: None,
        }]
    );
    assert_eq!(
        errors_of(" dfw $12\n", true),
        vec![AssemblerError {
            message: "The `dfw` directive expects a word operand".to_string(),
            labels: vec![(here(5..8), None)],
            help: None,
        }]
    );
    assert_eq!(
        errors_of(" dfw <later\n", true),
        vec![AssemblerError {
            message: "The `dfw` directive expects a word operand".to_string(),
            labels: vec![(here(5..6), Some("Modifier turns this word into a byte".to_string()))],
            help: None,
        }]
    );
    let (mut object, _) = generate(" dfb <there\n dfw there\n org $0302\nthere\n", true).unwrap();
    assert_eq!(resolve_references(&mut object[0]), Ok(()));
    assert_eq!(object[0].data[0..3].to_vec(), vec![0x03, 0x02, 0x03]);
}

#[test]
fn dfb_string_errors_point_into_the_string() {
    assert_eq!(
        errors_of(" dfb \"a~\"\n", true),
        vec![AssemblerError {
            message: "Character `~` is invalid".to_string(),
            labels: vec![(here(7..8), None)],
            help: None,
        }]
    );
}

#[test]
fn macros_are_defined_once_and_by_a_label() {
    assert_eq!(
        errors_of(" equ $1\n", true),
        vec![AssemblerError {
            message: "A name is not present for this macro".to_string(),
            labels: vec![(here(1..7), None)],
            help: None,
        }]
    );
    assert_eq!(
        errors_of("one equ $1\none equ $2\n", true),
        vec![AssemblerError {
            message: "The macro `one` has already been defined".to_string(),
            labels: vec![
                (here(15..21), None),
                (here(4..10), Some("Already defined here".to_string())),
            ],
            help: None,
        }]
    );
    assert_eq!(
        errors_of("one equ a\n", true),
        vec![AssemblerError {
            message: "The `equ` directive expects a byte or word operand".to_string(),
            labels: vec![(here(4..9), None)],
            help: None,
        }]
    );
    assert_eq!(
        errors_of("one equ later\n", true),
        vec![AssemblerError {
            message: "The `equ` directive expects a byte or word operand".to_string(),
            labels: vec![(here(4..13), None)],
            help: None,
        }]
    );
}

#[test]
fn org_is_for_binaries_and_sct_for_objects() {
    assert_eq!(
        errors_of(" org $1000\n", false),
        vec![AssemblerError {
            message: "The `org` directive cannot be used in object mode".to_string(),
            labels: vec![(here(1..10), None)],
            help: None,
        }]
    );
    assert_eq!(
        errors_of(" org $10\n", true),
        vec![AssemblerError {
            message: "The `org` directive expects a word operand".to_string(),
            labels: vec![(here(1..8), None)],
            help: None,
        }]
    );
    assert_eq!(
        errors_of(" sct \"code\"\n", true),
        vec![AssemblerError {
            message: "The `sct` directive is not allowed in binary mode".to_string(),
            labels: vec![(here(1..11), None)],
            help: None,
        }]
    );
    assert_eq!(
        errors_of(" sct $10\n", false),
        vec![AssemblerError {
            message: "The `sct` directive expects a string operand".to_string(),
            labels: vec![(here(1..8), None)],
            help: None,
        }]
    );
    let (object, _) = generate(" sct \"code\"\n nop\n sct \"code\"\n nop\n", false).unwrap();
    assert_eq!(object.len(), 1);
    assert_eq!(object[0].name, "code");
    assert_eq!(object[0].origin, 2);
}

#[test]
fn invalid_address_mode_lists_the_valid_ones() {
    assert_eq!(
        errors_of(" jsr #$10\n bne ($10),y\n nop\n hlt\n inc\n", true),
        vec![
            AssemblerError {
                message: "Immediate address mode is invalid for instruction `jsr`".to_string(),
                labels: vec![(here(5..9), None)],
                help: Some("Valid address modes are:\n    Absolute".to_string()),
            },
            AssemblerError {
                message: "Indirect, Y-indexed address mode is invalid for instruction `bne`"
                    .to_string(),
                labels: vec![(here(15..22), None)],
                help: Some("Valid address modes are:\n    Relative".to_string()),
            },
            AssemblerError {
                message: "Implied address mode is invalid for instruction `inc`".to_string(),
                labels: vec![(here(34..37), None)],
                help: Some(
                    "Valid address modes are:\n    Absolute\n    Absolute, X-Indexed\n    Zeropage\n    Zeropage, X-indexed"
                        .to_string()
                ),
            },
        ]
    );
}

#[test]
fn only_the_first_instruction_of_a_line_counts() {
    let program = vec![
        Action::LineStart(0),
        Action::Instruction(Spanned::new((
            Instruction { mnemonic: Spanned::new((Mnemonic::Nop, 0..3)), operand: None },
            0..3,
        ))),
        Action::Instruction(Spanned::new((
            Instruction { mnemonic: Spanned::new((Mnemonic::Clc, 4..7)), operand: None },
            4..7,
        ))),
        Action::LineEnd(8),
        Action::PopInclude,
        Action::Label(Spanned::new((
            Label::Top(TopLabel { name: "end".to_string(), visibility: Visibility::Object }),
            8..11,
        ))),
    ];
    let sources = one_file("nop clc\nend");
    let (object, listing) = GeneratorContext::new(program, true, "main.65a".to_string(), &sources)
        .generate_code()
        .unwrap();
    assert_eq!(object[0].data[0..2].to_vec(), vec![0xea, 0x00]);
    assert_eq!(object[0].labels, vec![label("end", 1)]);
    assert_eq!(
        listing,
        vec![
            Listing { location: Some((0, 0, 1)), code: "nop clc".to_string() },
            Listing { location: None, code: "**** END   INCLUDED FILE `main.65a`".to_string() },
        ]
    );
}

#[test]
fn included_value_is_no_operand() {
    let program = vec![Action::Instruction(Spanned::new((
        Instruction {
            mnemonic: Spanned::new((Mnemonic::Dfb, 0..3)),
            operand: Some(Spanned::new((
                Operand {
                    mode: OperandMode::Immediate,
                    modifier: None,
                    value: Spanned::new((Value::Include(("a.65a".to_string(), vec![])), 4..11)),
                },
                4..11,
            ))),
        },
        0..11,
    )))];
    let sources = one_file("");
    assert_eq!(
        GeneratorContext::new(program, true, "main.65a".to_string(), &sources).generate_code(),
        Err(vec![AssemblerError {
            message: "The `dfb` directive expects a byte operand".to_string(),
            labels: vec![(here(4..11), None)],
            help: None,
        }])
    );
}

#[test]
fn code_must_fit_the_section() {
    assert_eq!(
        errors_of(" org $ffff\n lda #1\n", true),
        vec![AssemblerError {
            message: "The section has no room for this code".to_string(),
            labels: vec![(here(16..18), None)],
            help: None,
        }]
    );
    let (object, _) = generate(" org $ffff\n nop\n", true).unwrap();
    assert_eq!(object[0].origin, MEMORY_SIZE);
    assert_eq!(object[0].data[0xffff], 0xea);
    assert_eq!(
        errors_of(" org $ffff\n nop\n nop\n", true),
        vec![AssemblerError {
            message: "The section has no room for this code".to_string(),
            labels: vec![(here(17..20), None)],
            help: None,
        }]
    );
}

#[test]
fn memory_without_code_stays_zero() {
    let (mut object, _) = generate(" org $1030\n dfb $ff\n org $1020\n dfb $ee\n", true).unwrap();
    assert_eq!(object[0].lowest_origin, Some(0x1020));
    assert_eq!(object[0].highest_origin, 0x1031);
    let image = emit_binary(&mut object[0]).unwrap();
    assert_eq!(image.len(), 0x11);
    assert_eq!(image[0], 0xee);
    assert_eq!(image[0x10], 0xff);
    assert!(image[1..0x10].iter().all(|byte| *byte == 0));
    assert!(object[0]
        .data
        .iter()
        .enumerate()
        .all(|(address, byte)| *byte == 0 || address == 0x1020 || address == 0x1030));
}

#[test]
fn listing_shows_addresses_and_code() {
    let source = "start lda #$01   \n  dfb \"abcdefgh\"\n* note\n jmp start\n\nlast";
    let (mut object, listing) = generate(source, true).unwrap();
    assert_eq!(resolve_references(&mut object[0]), Ok(()));
    assert_eq!(
        listing,
        vec![
            Listing { location: Some((0, 0, 2)), code: "start lda #$01".to_string() },
            Listing { location: Some((0, 2, 10)), code: "  dfb \"abcdefgh\"".to_string() },
            Listing { location: Some((0, 10, 13)), code: "* note\n jmp start".to_string() },
            Listing { location: Some((0, 13, 13)), code: "".to_string() },
            Listing { location: Some((0, 13, 13)), code: "last".to_string() },
        ]
    );
    assert_eq!(
        create_listing(&object[0], listing),
        "0000 a9 01    start lda #$01\n\
         0002 c1 c2 c3   dfb \"abcdefgh\"\n\
         0005 c4 c5 c6 \n\
         0008 c7 c8    \n\
         000a 4c 00 00 * note\n jmp start\n\
         000d          \n\
         000d          last\n\
         \x20             * Assembled 13 bytes"
    );
}

#[test]
fn listing_rows_of_three() {
    let mut section = Section::new("default".to_string());
    for (address, byte) in section.data.iter_mut().enumerate().take(16) {
        *byte = address as u8 + 0xf0;
    }
    section.highest_origin = 16;
    let lines = |end: usize| vec![Listing { location: Some((0, 0, end)), code: "x".to_string() }];
    assert_eq!(
        create_listing(&section, lines(0)),
        "0000          x\n              * Assembled 16 bytes"
    );
    assert_eq!(
        create_listing(&section, lines(1)),
        "0000 f0       x\n              * Assembled 16 bytes"
    );
    assert_eq!(
        create_listing(&section, lines(3)),
        "0000 f0 f1 f2 x\n              * Assembled 16 bytes"
    );
    assert_eq!(
        create_listing(&section, lines(4)),
        "0000 f0 f1 f2 x\n0003 f3       \n              * Assembled 16 bytes"
    );
    assert_eq!(
        create_listing(&section, lines(6)),
        "0000 f0 f1 f2 x\n0003 f3 f4 f5 \n              * Assembled 16 bytes"
    );
    assert_eq!(
        create_listing(&section, lines(7)),
        "0000 f0 f1 f2 x\n0003 f3 f4 f5 \n0006 f6       \n              * Assembled 16 bytes"
    );
    assert_eq!(
        create_listing(
            &section,
            vec![Listing { location: None, code: "**** START INCLUDED FILE `a.65a`".to_string() }]
        ),
        "**** START INCLUDED FILE `a.65a`\n              * Assembled 16 bytes"
    );
}

#[test]
fn symbol_table_lists_global_labels() {
    let (object, _) = generate(" org $1000\n!first\n nop\nhidden\n!second\n.sub\n", true).unwrap();
    assert_eq!(
        create_symbol_table(&object[0]),
        "first equ $1000\nsecond equ $1001"
    );
    let (object, _) = generate("hidden\n", true).unwrap();
    assert_eq!(create_symbol_table(&object[0]), "");
}

#[test]
fn joined_strings() {
    assert_eq!(join(&vec![], ", "), "");
    assert_eq!(join(&vec!["a".to_string()], ", "), "a");
    assert_eq!(
        join(&vec!["a".to_string(), "".to_string(), "c".to_string()], ", "),
        "a, , c"
    );
}

#[test]
fn listing_text_assembles_to_the_same_code() {
    let source = "start  lda #$01  \n loop   dex\t\n   bne loop\n * done\n!end jmp start\n";
    let (mut object, listing) = generate(source, true).unwrap();
    let image = emit_binary(&mut object[0]).unwrap();
    let text: Vec<String> = listing.iter().map(|line| line.code.clone()).collect();
    let again = text.join("\n");
    assert_ne!(again, source);
    let (mut second, second_listing) = generate(&again, true).unwrap();
    assert_eq!(emit_binary(&mut second[0]).unwrap(), image);
    assert_eq!(second[0].labels, object[0].labels);
    let second_text: Vec<String> = second_listing.iter().map(|line| line.code.clone()).collect();
    assert_eq!(second_text, text);
}

#[test]
fn listing_marks_included_files() {
    let sources = vec![
        SourceFile {
            name: "main.65a".to_string(),
            contents: SourceText::Read(" nop\n inl \"part.65a\" \n clc\n".to_string()),
        },
        SourceFile {
            name: "part.65a".to_string(),
            contents: SourceText::Read("inner dfw $1234\n".to_string()),
        },
    ];
    let program = parse(&sources).unwrap();
    let (object, listing) = GeneratorContext::new(program, true, "main.65a".to_string(), &sources)
        .generate_code()
        .unwrap();
    assert_eq!(
        create_listing(&object[0], listing),
        "0000 ea        nop\n\
         0001           inl \"part.65a\"\n\
         **** START INCLUDED FILE `part.65a`\n\
         0001 34 12    inner dfw $1234\n\
         **** END   INCLUDED FILE `part.65a`\n\
         0003 18        clc\n\
         \x20             * Assembled 4 bytes"
    );
}

#[test]
fn highest_origin_is_never_lowered() {
    let (mut object, _) = generate(
        " org $1040\n dfb $01\n org $1020\n org $1030\n dfb $02\n",
        true,
    )
    .unwrap();
    assert_eq!(object[0].lowest_origin, Some(0x1020));
    assert_eq!(object[0].highest_origin, 0x1041);
    let image = emit_binary(&mut object[0]).unwrap();
    assert_eq!(image.len(), 0x21);
    assert_eq!(image[0x10], 0x02);
    assert_eq!(image[0x20], 0x01);
}

#[test]
fn listing_of_a_file_without_its_text() {
    let program = vec![Action::LineStart(0), Action::LineEnd(4)];
    let no_sources: Vec<SourceFile> = Vec::new();
    let (_, listing) = GeneratorContext::new(program, true, "main.65a".to_string(), &no_sources)
        .generate_code()
        .unwrap();
    assert_eq!(listing, vec![Listing { location: Some((0, 0, 0)), code: "".to_string() }]);
    let program = vec![Action::LineStart(3), Action::LineEnd(2), Action::LineStart(0), Action::LineEnd(9)];
    let sources = one_file("nop \u{a0}\n");
    let (_, listing) = GeneratorContext::new(program, true, "main.65a".to_string(), &sources)
        .generate_code()
        .unwrap();
    assert_eq!(
        listing,
        vec![
            Listing { location: Some((0, 0, 0)), code: "".to_string() },
            Listing { location: Some((0, 0, 0)), code: "".to_string() },
        ]
    );
    let program = vec![Action::LineStart(0), Action::LineEnd(7)];
    let (_, listing) = GeneratorContext::new(program, true, "main.65a".to_string(), &sources)
        .generate_code()
        .unwrap();
    assert_eq!(listing, vec![Listing { location: Some((0, 0, 0)), code: "nop".to_string() }]);
}

#[test]
fn new_section_is_added_after_code() {
    let (object, _) = generate(
        " nop\n sct \"code\"\n clc\n sec\n sct \"default\"\n inx\n sct \"data\"\n dfb 7\n",
        false,
    )
    .unwrap();
    assert_eq!(object.len(), 3);
    assert_eq!(object[0].name, "default");
    assert_eq!(object[0].data[0..3].to_vec(), vec![0xea, 0xe8, 0x00]);
    assert_eq!(object[0].origin, 2);
    assert_eq!(object[1].name, "code");
    assert_eq!(object[1].data[0..3].to_vec(), vec![0x18, 0x38, 0x00]);
    assert_eq!(object[1].origin, 2);
    assert_eq!(object[1].labels, vec![]);
    assert_eq!(object[1].references, vec![]);
    assert_eq!(object[2].name, "data");
    assert_eq!(object[2].data[0..2].to_vec(), vec![0x07, 0x00]);
}

#[test]
fn empty_first_section_is_renamed_once() {
    let (object, _) = generate(" sct \"one\"\n sct \"two\"\n nop\n", false).unwrap();
    assert_eq!(object.len(), 1);
    assert_eq!(object[0].name, "two");
    let (object, _) = generate(" sct \"one\"\n nop\n sct \"two\"\n", false).unwrap();
    assert_eq!(object.len(), 2);
    assert_eq!(object[0].name, "one");
    assert_eq!(object[1].name, "two");
    assert_eq!(object[1].origin, 0);
}

#[test]
fn modified_reference_is_in_the_zero_page() {
    let (mut object, _) = generate(
        " adc <one\n adc >one,x\n ldx <one,y\n adc one\n jmp (one)\n org $1234\none\n",
        true,
    )
    .unwrap();
    assert_eq!(
        object[0].references.iter().map(|reference| reference.offset).collect::<Vec<usize>>(),
        vec![1, 3, 5, 7, 10]
    );
    assert_eq!(resolve_references(&mut object[0]), Ok(()));
    assert_eq!(
        object[0].data[0..12].to_vec(),
        vec![0x65, 0x12, 0x75, 0x34, 0xb6, 0x12, 0x6d, 0x34, 0x12, 0x6c, 0x34, 0x12]
    );
}

#[test]
fn string_operand_puts_no_code() {
    let program = vec![
        Action::Instruction(Spanned::new((
            Instruction {
                mnemonic: Spanned::new((Mnemonic::Lda, 0..3)),
                operand: Some(Spanned::new((
                    Operand {
                        mode: OperandMode::Address,
                        modifier: None,
                        value: Spanned::new((Value::String("ab".to_string()), 4..8)),
                    },
                    4..8,
                ))),
            },
            0..8,
        ))),
        Action::LineEnd(9),
        Action::Label(Spanned::new((
            Label::Top(TopLabel { name: "after".to_string(), visibility: Visibility::Object }),
            9..14,
        ))),
    ];
    let sources = one_file("lda \"ab\"\nafter");
    let mut generator = GeneratorContext::new(program, true, "main.65a".to_string(), &sources);
    let instruction = Spanned::new((
        Instruction {
            mnemonic: Spanned::new((Mnemonic::Lda, 0..3)),
            operand: Some(Spanned::new((
                Operand {
                    mode: OperandMode::Address,
                    modifier: None,
                    value: Spanned::new((Value::String("ab".to_string()), 4..8)),
                },
                4..8,
            ))),
        },
        0..8,
    ));
    assert_eq!(
        generator.handle_instruction(&instruction),
        Err(AssemblerError {
            message: "String operands are only allowed for the `dfb` and `inl` directives"
                .to_string(),
            labels: vec![(here(4..8), None)],
            help: None,
        })
    );
    assert_eq!(
        generator.handle_label(&Spanned::new((
            Label::Top(TopLabel { name: "first".to_string(), visibility: Visibility::Object }),
            0..5,
        ))),
        Ok(())
    );
    assert_eq!(
        generator.handle_label(&Spanned::new((
            Label::Sub((None, Spanned::new(("sub".to_string(), 7..10)))),
            6..10,
        ))),
        Ok(())
    );
    assert_eq!(
        generator.handle_label(&Spanned::new((
            Label::Sub((
                Some(Spanned::new(("first".to_string(), 11..16))),
                Spanned::new(("sub".to_string(), 17..20)),
            )),
            11..20,
        ))),
        Ok(())
    );
    assert_eq!(generator.generate_code().unwrap_err().len(), 1);
}

#[test]
fn listing_text_keeps_the_layout() {
    let source = "\
        \x20 org $1030  \n\
        width equ $28\n\
        base equ $0400\n\
        !entry ldx #width \t\n\
        .again dex\n\
        \x20 lda base,x\n\
        \x20 sta far\n\
        \x20 lda #<far\n\
        \x20 bne .again   until done\n\
        \x20 jmp (far)\n\
        * data\n\
        \n\
        \x20 org $1020\n\
        far dfb \"hi\"\n\
        \x20 dfw entry\n";
    let (first, listing) = generate(source, true).unwrap();
    let mut again = String::new();
    for line in listing.iter() {
        again.push_str(&line.code);
        again.push('\n');
    }
    assert_ne!(again, source);
    let (second, second_listing) = generate(&again, true).unwrap();
    assert_eq!(second.len(), first.len());
    for (new, old) in second.iter().zip(first.iter()) {
        assert_eq!(new.data, old.data);
        assert_eq!(new.origin, old.origin);
        assert_eq!(new.lowest_origin, old.lowest_origin);
        assert_eq!(new.highest_origin, old.highest_origin);
        assert_eq!(new.labels, old.labels);
        assert_eq!(new.references.len(), old.references.len());
        for (patch, before) in new.references.iter().zip(old.references.iter()) {
            assert_eq!(patch.name, before.name);
            assert_eq!(patch.offset, before.offset);
            assert_eq!(
                patch.modifier.as_ref().map(|modifier| &modifier.val),
                before.modifier.as_ref().map(|modifier| &modifier.val)
            );
            assert_eq!(patch.branch, before.branch);
        }
    }
    assert_eq!(first[0].lowest_origin, Some(0x1020));
    assert_eq!(first[0].highest_origin, 0x1040);
    assert_eq!(first[0].references.len(), 5);
    // A comment line takes its newline with it, so it is listed with the
    // line that follows it: the lines may be cut differently, the text is
    // the same.
    let mut third = String::new();
    for line in second_listing.iter() {
        third.push_str(&line.code);
        third.push('\n');
    }
    assert_eq!(third, again);
    assert_eq!(second_listing.len() + 1, listing.len());
}
