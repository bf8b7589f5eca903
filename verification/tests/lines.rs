use s502_as::ast::{
    Action, Include, Instruction, Label, Location, Mnemonic, Operand, OperandMode, Spanned,
    TopLabel, Value, Visibility,
};
use s502_as::error::AssemblerError;
use s502_as::parser::{ParseReport, ParserContext};
use s502_as::sources::{SourceFile, SourceText};

fn top(source_name: &str) -> Vec<Include> {
    vec![Include {
        included: source_name.to_string(),
        loc: Location { span: 0..1, file_name: "<command line>".to_string() },
    }]
}

fn read(name: &str, text: &str) -> SourceFile {
    SourceFile { name: name.to_string(), contents: SourceText::Read(text.to_string()) }
}

fn parse_with(source: &str, sources: &Vec<SourceFile>) -> ParseReport {
    ParserContext::new("main.65a".to_string(), source, sources, top("main.65a")).parse()
}

fn parse_errors(source: &str) -> Vec<AssemblerError> {
    parse_with(source, &Vec::new()).result.unwrap_err()
}

fn at(span: std::ops::Range<usize>, note: Option<&str>) -> (Location, Option<String>) {
    (
        Location { span, file_name: "main.65a".to_string() },
        note.map(|text| text.to_string()),
    )
}

fn plain_error(message: &str, span: std::ops::Range<usize>) -> AssemblerError {
    AssemblerError { message: message.to_string(), labels: vec![at(span, None)], help: None }
}

fn top_label(name: &str, span: std::ops::Range<usize>) -> Action {
    Action::Label(Spanned::new((
        Label::Top(TopLabel { name: name.to_string(), visibility: Visibility::Object }),
        span,
    )))
}

fn implied(mnemonic: Mnemonic, span: std::ops::Range<usize>) -> Action {
    Action::Instruction(Spanned::new((
        Instruction { mnemonic: Spanned::new((mnemonic, span.clone())), operand: None },
        span,
    )))
}

#[test]
fn lines_start_where_the_last_one_ended() {
    assert_eq!(
        parse_with("one nop\n\n  clc ; done", &Vec::new()).result,
        Ok(vec![
            Action::LineStart(0),
            top_label("one", 0..3),
            implied(Mnemonic::Nop, 4..7),
            Action::LineEnd(8),
            Action::LineStart(8),
            Action::LineEnd(9),
            Action::LineStart(9),
            implied(Mnemonic::Clc, 11..14),
            Action::LineEnd(21),
        ])
    );
}

#[test]
fn implied_mnemonic_takes_no_operand() {
    assert_eq!(
        parse_with("nop #1\n", &Vec::new()).result,
        Ok(vec![Action::LineStart(0), implied(Mnemonic::Nop, 0..3), Action::LineEnd(7)])
    );
}

#[test]
fn explicit_sublabel() {
    let sources: Vec<SourceFile> = Vec::new();
    let mut parser =
        ParserContext::new("main.65a".to_string(), "top.sub", &sources, top("main.65a"));
    assert_eq!(
        parser.parse_label(),
        Ok(Some(Spanned::new((
            Label::Sub((
                Some(Spanned::new(("top".to_string(), 0..3))),
                Spanned::new(("sub".to_string(), 4..7)),
            )),
            0..7
        ))))
    );
}

#[test]
fn label_errors() {
    assert_eq!(
        parse_errors("!"),
        vec![plain_error("Unexpected end of file, expected a label", 0..1)]
    );
    assert_eq!(
        parse_errors("."),
        vec![plain_error("Unexpected end of file, expected a label", 0..1)]
    );
    assert_eq!(parse_errors("top."), vec![plain_error("Expected a label after `.`", 3..4)]);
    assert_eq!(
        parse_errors("!top.sub"),
        vec![plain_error("Cannot specify a global visibility with a sublabel", 0..1)]
    );
    assert_eq!(
        parse_errors(".one.two"),
        vec![AssemblerError {
            message: "Cannot nest sublabel `two` under one".to_string(),
            labels: vec![
                at(4..8, Some("Nested sublabels are not allowed")),
                at(0..4, Some("sublabel already created here")),
            ],
            help: None,
        }]
    );
    assert_eq!(
        parse_errors("top.one.two"),
        vec![AssemblerError {
            message: "Cannot nest sublabel under `one`".to_string(),
            labels: vec![
                at(7..11, Some("Nested sublabels are not allowed")),
                at(3..7, Some("sublabel already created here")),
            ],
            help: None,
        }]
    );
    assert_eq!(
        parse_errors("top.one."),
        vec![AssemblerError {
            message: "Cannot nest sublabel under `one`".to_string(),
            labels: vec![
                at(7..8, Some("Nested sublabels are not allowed")),
                at(3..7, Some("sublabel already created here")),
            ],
            help: None,
        }]
    );
}

#[test]
fn operand_errors() {
    assert_eq!(parse_errors("lda #"), vec![plain_error("Expected value after `#`", 4..5)]);
    assert_eq!(parse_errors("lda ("), vec![plain_error("Expected value after `(`", 4..5)]);
    assert_eq!(
        parse_errors("lda <"),
        vec![plain_error("Expected value after modifier", 4..5)]
    );
    assert_eq!(parse_errors("lda ."), vec![plain_error("Expected a label after `.`", 4..5)]);
    assert_eq!(
        parse_errors("lda #.sub"),
        vec![plain_error("No parent label under which to refer to a sublabel", 5..9)]
    );
    assert_eq!(
        parse_errors("lda .sub"),
        vec![plain_error("No parent label under which to refer to a sublabel", 4..8)]
    );
    assert_eq!(
        parse_errors("lda ($10),x"),
        vec![plain_error("Expected `Y` after `,`", 9..10)]
    );
    assert_eq!(
        parse_errors("lda ($10,y)"),
        vec![plain_error("Expected `X` after `,`", 8..9)]
    );
    assert_eq!(
        parse_errors("lda ($10 nop"),
        vec![plain_error("Expected `)` or `,` after value", 5..8)]
    );
}

#[test]
fn sublabel_reference_takes_the_parent() {
    let sources: Vec<SourceFile> = Vec::new();
    let mut parser = ParserContext::new(
        "main.65a".to_string(),
        "top jmp .sub\nnext lda #>.sub",
        &sources,
        top("main.65a"),
    );
    assert_eq!(parser.parse_line(), Ok(()));
    assert_eq!(parser.parse_line(), Ok(()));
    let references: Vec<Value> = parser
        .program()
        .iter()
        .filter_map(|action| match action {
            Action::Instruction(instruction) => {
                match &instruction.val.operand.as_ref().unwrap().val.value.val {
                    Value::Reference(name) => Some(Value::Reference(name.clone())),
                    _ => None,
                }
            }
            _ => None,
        })
        .collect();
    assert_eq!(
        references,
        vec![
            Value::Reference("top.sub".to_string()),
            Value::Reference("next.sub".to_string()),
        ]
    );
}

#[test]
fn after_an_error_the_line_is_skipped() {
    assert_eq!(
        parse_errors("lda # nop\n!\nok lda #1\nlda (1\n"),
        vec![
            plain_error("Expected value after `#`", 4..5),
            AssemblerError {
                message: "Unexpected token `<end of line>`".to_string(),
                labels: vec![at(11..12, Some("Expected a label"))],
                help: None,
            },
            plain_error("Expected `)` or `,` after value", 27..28),
        ]
    );
}

#[test]
fn included_file_is_spliced_in() {
    let sources = vec![read("a.65a", "inner\n nop\n"), read("empty.65a", "")];
    assert_eq!(
        parse_with("one inl \"a.65a\" twice\ninl \"empty.65a\"\nlast\n", &sources).result,
        Ok(vec![
            Action::LineStart(0),
            top_label("one", 0..3),
            Action::LineEnd(22),
            Action::PushInclude("a.65a".to_string()),
            Action::LineStart(0),
            top_label("inner", 0..5),
            Action::LineEnd(6),
            Action::LineStart(6),
            implied(Mnemonic::Nop, 7..10),
            Action::LineEnd(11),
            Action::PopInclude,
            Action::LineEnd(38),
            Action::PushInclude("empty.65a".to_string()),
            Action::PopInclude,
            top_label("last", 38..42),
            Action::LineEnd(43),
        ])
    );
}

#[test]
fn a_file_may_be_included_twice() {
    let sources = vec![read("a.65a", "nop")];
    let report = parse_with("inl \"a.65a\"\ninl \"a.65a\"\n", &sources);
    assert_eq!(report.missing, Vec::<String>::new());
    assert_eq!(
        report
            .result
            .unwrap()
            .iter()
            .filter(|action| matches!(action, Action::PushInclude(_)))
            .count(),
        2
    );
}

fn recursive(
    name: &str,
    inner: &str,
    here: Location,
    first: Location,
    note: &str,
) -> AssemblerError {
    AssemblerError {
        message: "Recursive include found".to_string(),
        labels: vec![
            (here, Some(format!("Could not include \"{}\"", inner))),
            (first, Some(note.to_string())),
        ],
        help: Some(format!(
            "Labels can be referenced before they're defined,\nso including `{}` here may not be necessary",
            name
        )),
    }
}

#[test]
fn file_that_includes_its_includer() {
    let sources = vec![read("a.65a", " inl \"b.65a\"\n"), read("b.65a", "nop\ninl \"a.65a\"")];
    assert_eq!(
        parse_with("inl \"a.65a\"\n", &sources).result,
        Err(vec![recursive(
            "a.65a",
            "a.65a",
            Location { span: 4..15, file_name: "b.65a".to_string() },
            Location { span: 0..11, file_name: "main.65a".to_string() },
            "Already included here",
        )])
    );
}

#[test]
fn file_that_includes_the_top_file() {
    let sources = vec![read("a.65a", "inl \"main.65a\"\n")];
    assert_eq!(
        parse_with("inl \"a.65a\"\nlda #\n", &sources).result,
        Err(vec![
            recursive(
                "main.65a",
                "main.65a",
                Location { span: 0..14, file_name: "a.65a".to_string() },
                Location { span: 0..1, file_name: "<command line>".to_string() },
                "Given in assembler invocatiion",
            ),
            plain_error("Expected value after `#`", 16..17),
        ])
    );
}

#[test]
fn wrong_extension_asks_for_no_file() {
    let report = parse_with("inl \"a.txt\"\ninl \".65a\"\ninl \"d/.65a\"\n", &Vec::new());
    assert_eq!(report.missing, Vec::<String>::new());
    assert_eq!(
        report.result,
        Err(vec![
            AssemblerError {
                message: "Could not include \"a.txt\"".to_string(),
                labels: vec![at(4..11, Some("File extension is expected to be `65a`"))],
                help: None,
            },
            AssemblerError {
                message: "Could not include \".65a\"".to_string(),
                labels: vec![at(16..22, Some("File extension is expected to be `65a`"))],
                help: None,
            },
            AssemblerError {
                message: "Could not include \"d/.65a\"".to_string(),
                labels: vec![at(27..35, Some("File extension is expected to be `65a`"))],
                help: None,
            },
        ])
    );
}

#[test]
fn inl_takes_a_plain_string() {
    assert_eq!(
        parse_errors("inl\ninl name\ninl \"a.65a\",x\n"),
        vec![
            AssemblerError {
                message: "Invalid operand to `inl`".to_string(),
                labels: vec![at(0..3, Some("Expected an unmodified string literal"))],
                help: None,
            },
            AssemblerError {
                message: "Invalid operand to `inl`".to_string(),
                labels: vec![at(8..12, Some("Expected an unmodified string literal"))],
                help: None,
            },
            AssemblerError {
                message: "Invalid operand to `inl`".to_string(),
                labels: vec![at(17..26, Some("Expected an unmodified string literal"))],
                help: None,
            },
        ]
    );
}

#[test]
fn file_that_was_not_read_is_missing() {
    let report = parse_with("inl \"a.65a\"\n", &Vec::new());
    assert_eq!(report.missing, vec!["a.65a".to_string()]);
    assert_eq!(
        report.result,
        Err(vec![plain_error(
            "Could not include \"a.65a\": the file has not been read",
            0..11
        )])
    );
}

#[test]
fn errors_in_an_included_file_are_its_own() {
    let sources = vec![read("a.65a", "lda #\n")];
    assert_eq!(
        parse_with("inl \"a.65a\"\n!\n", &sources).result,
        Err(vec![
            AssemblerError {
                message: "Expected value after `#`".to_string(),
                labels: vec![(Location { span: 4..5, file_name: "a.65a".to_string() }, None)],
                help: None,
            },
            AssemblerError {
                message: "Unexpected token `<end of line>`".to_string(),
                labels: vec![at(13..14, Some("Expected a label"))],
                help: None,
            },
        ])
    );
}

#[test]
fn operand_of_parsed_instruction() {
    let sources: Vec<SourceFile> = Vec::new();
    let mut parser =
        ParserContext::new("main.65a".to_string(), "sta buffer,y", &sources, top("main.65a"));
    assert_eq!(
        parser.parse_instruction(),
        Ok(Some(Spanned::new((
            Instruction {
                mnemonic: Spanned::new((Mnemonic::Sta, 0..3)),
                operand: Some(Spanned::new((
                    Operand {
                        mode: OperandMode::YIndexed,
                        modifier: None,
                        value: Spanned::new((Value::Reference("buffer".to_string()), 4..10)),
                    },
                    4..12
                ))),
            },
            0..12
        ))))
    );
    assert_eq!(parser.skip_to_eol(), 0);
}

#[test]
fn inclusion_under_way_gives_no_name() {
    let sources = vec![read("a.65a", "nop"), read("b.65a", "nop")];
    let mut stack = top("main.65a");
    stack.push(Include {
        included: "a.65a".to_string(),
        loc: Location { span: 0..11, file_name: "main.65a".to_string() },
    });
    stack.push(Include {
        included: "b.65a".to_string(),
        loc: Location { span: 0..11, file_name: "a.65a".to_string() },
    });
    let mut parser = ParserContext::new("b.65a".to_string(), "", &sources, stack);
    assert_eq!(
        parser.handle_include("a.65a".to_string(), 4..11),
        (
            None,
            Err(vec![recursive(
                "a.65a",
                "a.65a",
                Location { span: 4..11, file_name: "b.65a".to_string() },
                Location { span: 0..11, file_name: "main.65a".to_string() },
                "Already included here",
            )])
        )
    );
    assert_eq!(
        parser.handle_include("main.65a".to_string(), 4..14).0,
        None
    );
    assert_eq!(
        parser.handle_include("b.65a".to_string(), 4..11).0,
        None
    );
    let (name, result) = parser.handle_include("c.65a".to_string(), 4..11);
    assert_eq!(name, Some("c.65a".to_string()));
    assert!(result.is_err());
    let mut outer = ParserContext::new("main.65a".to_string(), "", &sources, top("main.65a"));
    assert_eq!(
        outer.handle_include("a.65a".to_string(), 0..11),
        (
            Some("a.65a".to_string()),
            Ok(vec![
                Action::LineStart(0),
                implied(Mnemonic::Nop, 0..3),
                Action::LineEnd(3),
            ])
        )
    );
}
