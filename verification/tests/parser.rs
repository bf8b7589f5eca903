use s502_as::ast::{
    Action, Include, Instruction, Label, Location, Mnemonic, Operand, OperandMode, Spanned,
    TopLabel, Value, Visibility,
};
use s502_as::error::AssemblerError;
use s502_as::parser::{missing_source, ParserContext};
use s502_as::sources::{SourceFile, SourceText};

fn harness(source_name: &str) -> Vec<Include> {
    vec![Include {
        included: source_name.to_string(),
        loc: Location {
            span: 0..1,
            file_name: "<test harness>".to_string(),
        },
    }]
}

fn file(name: &str, text: &str) -> SourceFile {
    SourceFile {
        name: name.to_string(),
        contents: SourceText::Read(text.to_string()),
    }
}

#[test]
fn safe_include() {
    let source = "inl \"test_inputs/safe_include.65a\"".to_string();
    let source_name = "include labels test".to_string();
    let sources = vec![file("test_inputs/safe_include.65a", "mylabel")];

    let mut parser_context =
        ParserContext::new(source_name.clone(), &source, &sources, harness(&source_name));

    let included_result = parser_context.parse_instruction();

    assert!(included_result.is_ok());
    assert_eq!(
        included_result.unwrap(),
        Some(Spanned::new((
            Instruction {
                mnemonic: Spanned::new((Mnemonic::Inl, 0..3)),
                operand: Some(Spanned::new((
                    Operand {
                        mode: OperandMode::Immediate,
                        modifier: None,
                        value: Spanned::new((
                            Value::Include((
                                String::from("test_inputs/safe_include.65a"),
                                vec![
                                    Action::LineStart(0),
                                    Action::Label(Spanned::new((
                                        Label::Top(TopLabel {
                                            name: String::from("mylabel"),
                                            visibility: Visibility::Object
                                        }),
                                        0..7
                                    ))),
                                    Action::LineEnd(7)
                                ]
                            )),
                            4..34
                        ))
                    },
                    4..34
                )))
            },
            0..34
        )))
    );
}

#[test]
fn bad_string_include() {
    let source = "inl <\"test_inputs/safe_include.65a\"".to_string();
    let source_name = "include labels test".to_string();
    let sources = vec![file("test_inputs/safe_include.65a", "mylabel")];

    let mut parser_context =
        ParserContext::new(source_name.clone(), &source, &sources, harness(&source_name));

    let included_result = parser_context.parse_instruction();

    assert!(included_result.is_err());
    let error_labels = included_result.unwrap_err().labels;
    assert_eq!(
        error_labels.get(0).unwrap().1,
        Some(String::from("Expected an unmodified string literal"))
    );
}

#[test]
fn recursive_include() {
    let source = "inl \"test_inputs/recursive_include.65a\"".to_string();
    let source_name = "include labels test".to_string();
    let sources = vec![file(
        "test_inputs/recursive_include.65a",
        "inl \"test_inputs/recursive_include.65a\"\n",
    )];

    let mut parser_context =
        ParserContext::new(source_name.clone(), &source, &sources, harness(&source_name));

    let (included_file_id, included_result) =
        parser_context.handle_include(String::from("test_inputs/recursive_include.65a"), 4..34);

    assert!(included_file_id.is_some());
    assert!(included_result.is_err());
    let errors = included_result.unwrap_err();
    let error = errors.get(0).unwrap();
    assert_eq!(error.message, String::from("Recursive include found"));
}

#[test]
fn bad_extension_include() {
    let source = "inl \"test_inputs/bad_ext_include.txt\"".to_string();
    let source_name = "include labels test".to_string();
    let sources: Vec<SourceFile> = Vec::new();

    let mut parser_context =
        ParserContext::new(source_name.clone(), &source, &sources, harness(&source_name));

    let included_result = parser_context.parse_instruction();

    assert!(included_result.is_err());
    assert_eq!(
        included_result.unwrap_err().labels.get(0).unwrap().1,
        Some(String::from("File extension is expected to be `65a`"))
    );
}

#[test]
fn file_dne_include() {
    let source = "inl \"test_inputs/file_dne_include.65a\"".to_string();
    let source_name = "include labels test".to_string();
    let sources = vec![SourceFile {
        name: "test_inputs/file_dne_include.65a".to_string(),
        contents: SourceText::Failed("No such file or directory (os error 2)".to_string()),
    }];

    let mut parser_context =
        ParserContext::new(source_name.clone(), &source, &sources, harness(&source_name));

    let (included_file_id, included_result) =
        parser_context.handle_include(String::from("test_inputs/file_dne_include.65a"), 4..33);

    assert!(included_file_id.is_some());
    assert!(included_result.is_err());
    let errors = included_result.unwrap_err();
    let error = errors.get(0).unwrap();
    assert!(error.message.contains("No such file or directory"));
}

#[test]
fn plain() {
    let source = "mylabel".to_string();
    let source_name = "plain test".to_string();
    let sources: Vec<SourceFile> = Vec::new();

    let mut parser_context =
        ParserContext::new(source_name.clone(), &source, &sources, harness(&source_name));

    let label = parser_context.parse_label();
    assert!(label.is_ok());

    assert_eq!(
        label.unwrap().unwrap().val,
        Label::Top(TopLabel {
            name: "mylabel".to_string(),
            visibility: Visibility::Object,
        })
    );
}

#[test]
fn global() {
    let source = "!yourlabel".to_string();
    let source_name = "global test".to_string();
    let sources: Vec<SourceFile> = Vec::new();

    let mut parser_context =
        ParserContext::new(source_name.clone(), &source, &sources, harness(&source_name));

    let label = parser_context.parse_label();
    assert!(label.is_ok());

    assert_eq!(
        label.unwrap().unwrap().val,
        Label::Top(TopLabel {
            name: "yourlabel".to_string(),
            visibility: Visibility::Global,
        })
    );
}

#[test]
fn sublabel() {
    let source = ".sublabel".to_string();
    let source_name = "sublabel test".to_string();
    let sources: Vec<SourceFile> = Vec::new();

    let mut parser_context =
        ParserContext::new(source_name.clone(), &source, &sources, harness(&source_name));

    let sublabel = parser_context.parse_label();
    assert!(sublabel.is_ok());

    assert_eq!(
        sublabel.unwrap().unwrap().val,
        Label::Sub((None, Spanned::new(("sublabel".to_string(), 1..9))))
    );
}

#[test]
fn no_ident_after_global() {
    let source = "!adc".to_string();
    let source_name = "no ident after global test".to_string();
    let sources: Vec<SourceFile> = Vec::new();

    let mut parser_context =
        ParserContext::new(source_name.clone(), &source, &sources, harness(&source_name));

    let parse_result = parser_context.parse_label();
    assert!(parse_result.is_err());

    assert_eq!(
        parse_result.unwrap_err(),
        AssemblerError {
            message: "Unexpected token `adc`".to_string(),
            labels: vec![(
                Location {
                    span: 1..4,
                    file_name: "no ident after global test".to_string()
                },
                Some("Expected a label".to_string())
            )],
            help: None,
        }
    );
}

#[test]
fn no_ident_after_period() {
    let source = ".dfb".to_string();
    let source_name = "no ident after period test".to_string();
    let sources: Vec<SourceFile> = Vec::new();

    let mut parser_context =
        ParserContext::new(source_name.clone(), &source, &sources, harness(&source_name));

    let parse_result = parser_context.parse_label();
    assert!(parse_result.is_err());

    assert_eq!(
        parse_result.unwrap_err(),
        AssemblerError {
            message: "Unexpected token `dfb`".to_string(),
            labels: vec![(
                Location {
                    span: 1..4,
                    file_name: "no ident after period test".to_string()
                },
                Some("Expected a label".to_string())
            )],
            help: None,
        }
    );
}

#[test]
fn empty_line() {
    let source = "".to_string();
    let source_name = "empty line test".to_string();
    let sources: Vec<SourceFile> = Vec::new();

    let mut parser_context =
        ParserContext::new(source_name.clone(), &source, &sources, harness(&source_name));

    let line = parser_context.parse_line();
    assert!(line.is_ok());
    assert_eq!(*parser_context.program(), vec![Action::LineEnd(0)]);
}

#[test]
fn label_line() {
    let source = "mylabel".to_string();
    let source_name = "label line test".to_string();
    let sources: Vec<SourceFile> = Vec::new();

    let mut parser_context =
        ParserContext::new(source_name.clone(), &source, &sources, harness(&source_name));

    let line = parser_context.parse_line();
    assert!(line.is_ok());
    assert_eq!(
        *parser_context.program(),
        vec![
            Action::Label(Spanned::new((
                Label::Top(TopLabel {
                    name: "mylabel".to_string(),
                    visibility: Visibility::Object,
                }),
                0..7
            ))),
            Action::LineEnd(7)
        ]
    );
}

#[test]
fn instruction_line() {
    let source = "adc #2 test comment".to_string();
    let source_name = "instruction line test".to_string();
    let sources: Vec<SourceFile> = Vec::new();

    let mut parser_context =
        ParserContext::new(source_name.clone(), &source, &sources, harness(&source_name));

    let line = parser_context.parse_line();
    assert!(line.is_ok());
    assert_eq!(
        *parser_context.program(),
        vec![
            Action::Instruction(Spanned::new((
                Instruction {
                    mnemonic: Spanned::new((Mnemonic::Adc, 0..3)),
                    operand: Some(Spanned::new((
                        Operand {
                            mode: OperandMode::Immediate,
                            modifier: None,
                            value: Spanned::new((Value::Byte(2), 5..6))
                        },
                        4..6
                    )))
                },
                0..6
            ))),
            Action::LineEnd(19)
        ]
    );
}

#[test]
fn empty_program() {
    let source = "".to_string();
    let source_name = "empty_program".to_string();
    let sources: Vec<SourceFile> = Vec::new();

    let parser_context =
        ParserContext::new(source_name.clone(), &source, &sources, harness(&source_name));

    let program_result = parser_context.parse_program();

    assert!(program_result.is_ok());
    assert!(program_result.unwrap().is_empty());
}

#[test]
fn two_programs() {
    let source_1 = "".to_string();
    let source_2 = "".to_string();
    let source_name = "empty_program".to_string();
    let sources: Vec<SourceFile> = Vec::new();

    let parser_context =
        ParserContext::new(source_name.clone(), &source_1, &sources, harness(&source_name));

    let program_result_1 = parser_context.parse_program();

    let parser_context =
        ParserContext::new(source_name.clone(), &source_2, &sources, harness(&source_name));

    let program_result_2 = parser_context.parse_program();

    assert!(program_result_1.is_ok());
    assert!(program_result_2.is_ok());
}

#[test]
fn missing_source_is_asked_for() {
    let source = "inl \"a.65a\"\n".to_string();
    let no_sources: Vec<SourceFile> = Vec::new();
    assert_eq!(
        missing_source("top.65a".to_string(), &source, &no_sources, harness("top.65a")),
        Some("a.65a".to_string())
    );
    let sources = vec![file("a.65a", "inl \"b.65a\"\n")];
    assert_eq!(
        missing_source("top.65a".to_string(), &source, &sources, harness("top.65a")),
        Some("b.65a".to_string())
    );
    let sources = vec![file("a.65a", "inl \"b.65a\"\n"), file("b.65a", "nop\n")];
    assert_eq!(
        missing_source("top.65a".to_string(), &source, &sources, harness("top.65a")),
        None
    );
}
