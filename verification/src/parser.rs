//! The action builder: a recursive-descent parser that turns the tokens of a
//! file into the sequence of actions for the code generator.

use crate::apple::chars_of;
use crate::ast::{
    Action, ActionView, Include, Instruction, Label, Location, Mnemonic, Modifier, Operand,
    OperandMode, Program, Spanned, SpannedView, TopLabel, Value, ValueView, Visibility,
};
use crate::error::{AssemblerError, AssemblerErrorView};
use crate::grammar::{
    after_next, end_at, expect_value_spec, has_source_extension, include_room, include_spec,
    included_env, indexed_spec, indirect_spec, inl_spec, instruction_spec, kind_at,
    label_after_mark_spec, label_body_spec, label_spec, lemma_include_shrinks, lemma_line_end_pos,
    lemma_line_progress, lemma_stack_index, line_end_offset, line_end_pos, line_spec, line_tail,
    lines_spec, mnemonic_at, modified_value_spec, modifier_of, nested_sublabel_error, operand_spec,
    parent_after, program_spec, recursive_include_error, report_of, span_at, stack_has, stack_index,
    start_at, start_line, sublabel_reference_spec, syntax_error, text_at, unreadable_error,
    value_spec,
    Gathered, ParseEnv, ParseReportView,
};
use crate::lexer::{
    kind_of, scans, token_text, tokenize, tokens_from, Scan, SpannedToken, TokenKind,
};
use crate::sources::{find_source, lemma_source_index, SourceFile, SourceText};
use std::ops::Range;
use vstd::prelude::*;
use vstd::string::{StringExecFns, StringSliceAdditionalSpecFns};

verus! {

/// The tokens of a file and how far they have been read.
pub struct Cursor {
    tokens: Vec<SpannedToken>,
    position: usize,
}

impl Cursor {
    #[verifier::type_invariant]
    spec fn well_formed(&self) -> bool {
        self.position <= self.tokens.len()
    }

    /// The models of the tokens.
    pub closed spec fn tokens(&self) -> Seq<Scan> {
        scans(self.tokens@)
    }

    /// How many tokens have been read.
    pub closed spec fn position(&self) -> int {
        self.position as int
    }

    fn new(tokens: Vec<SpannedToken>) -> (cursor: Cursor)
        ensures
            cursor.tokens() == scans(tokens@),
            cursor.position() == 0,
    {
        Cursor { tokens, position: 0 }
    }

    /// The kind and the span of the token that comes next.
    fn peek(&self) -> (next: Option<(TokenKind, usize, usize)>)
        ensures
            0 <= self.position() <= self.tokens().len(),
            match next {
                Some(token) => 0 <= self.position() < self.tokens().len() && Some(token.0)
                    == kind_at(self.tokens(), self.position()) && token.1 == start_at(
                    self.tokens(),
                    self.position(),
                ) && token.2 == end_at(self.tokens(), self.position()),
                None => kind_at(self.tokens(), self.position()) is None,
            },
    {
        proof {
            use_type_invariant(self);
        }
        if self.position < self.tokens.len() {
            let token = &self.tokens[self.position];
            assert(scans(self.tokens@)[self.position as int] == token.scan());
            Some((token.token.kind(), token.span.start, token.span.end))
        } else {
            None
        }
    }

    /// The text of the identifier or string that comes next.
    fn text(&self) -> (text: String)
        requires
            0 <= self.position() < self.tokens().len(),
        ensures
            text@ == text_at(self.tokens(), self.position()),
    {
        assert(scans(self.tokens@)[self.position as int] == self.tokens[self.position as int].scan());
        self.tokens[self.position].token.text()
    }

    /// How diagnostics print the token that comes next.
    fn token_string(&self) -> (text: String)
        requires
            0 <= self.position() < self.tokens().len(),
        ensures
            text@ == token_text(self.tokens()[self.position()].token),
    {
        assert(scans(self.tokens@)[self.position as int] == self.tokens[self.position as int].scan());
        self.tokens[self.position].token.to_string()
    }

    /// Takes the token that comes next, if there is one.
    fn advance(&mut self)
        ensures
            final(self).tokens() == old(self).tokens(),
            final(self).position() == after_next(old(self).tokens(), old(self).position()),
    {
        if self.position < self.tokens.len() {
            self.position = self.position + 1;
        }
    }
}

/// The parser of one file.
pub struct ParserContext<'c> {
    file_name: String,
    cursor: Cursor,
    sources: &'c Vec<SourceFile>,
    include_stack: Vec<Include>,
    program: Program,
    errors: Vec<AssemblerError>,
    missing: Vec<String>,
    current_parent_label: Option<String>,
}

/// The model of a parser: what it parses in, how far it has come, and what
/// it has gathered.
pub struct ParserView {
    pub env: ParseEnv,
    pub position: int,
    pub program: Seq<ActionView>,
    pub errors: Seq<AssemblerErrorView>,
    pub missing: Seq<Seq<char>>,
    pub parent: Option<Seq<char>>,
}

impl ParserView {
    /// The parser moved on to a position.
    pub open spec fn at(self, position: int) -> ParserView {
        ParserView { position, ..self }
    }
}

/// The model of the result of a parser function.
pub open spec fn outcome_view<T: DeepView>(result: Result<T, AssemblerError>) -> Result<
    T::V,
    AssemblerErrorView,
> {
    match result {
        Ok(node) => Ok(node.deep_view()),
        Err(error) => Err(error.deep_view()),
    }
}

impl<'c> View for ParserContext<'c> {
    type V = ParserView;

    closed spec fn view(&self) -> ParserView {
        ParserView {
            env: ParseEnv {
                file: self.file_name@,
                tokens: self.cursor.tokens(),
                sources: self.sources.deep_view(),
                stack: self.include_stack.deep_view(),
            },
            position: self.cursor.position(),
            program: self.program.deep_view(),
            errors: self.errors.deep_view(),
            missing: self.missing.deep_view(),
            parent: self.current_parent_label.deep_view(),
        }
    }
}

impl<'c> ParserContext<'c> {
    /// A parser at the start of `source`, the text of the file `file_name`.
    /// `sources` are the files that can be included, and `include_stack`
    /// the inclusions that led here, the first of which is the file that
    /// the assembler was started on.
    pub fn new(
        file_name: String,
        source: &str,
        sources: &'c Vec<SourceFile>,
        include_stack: Vec<Include>,
    ) -> (parser: Self)
        ensures
            parser@ == (ParserView {
                env: ParseEnv {
                    file: file_name@,
                    tokens: tokens_from(source.spec_bytes(), 0),
                    sources: sources.deep_view(),
                    stack: include_stack.deep_view(),
                },
                position: 0,
                program: Seq::empty(),
                errors: Seq::empty(),
                missing: Seq::empty(),
                parent: None,
            }),
    {
        let parser = ParserContext {
            file_name,
            cursor: Cursor::new(tokenize(source)),
            sources,
            include_stack,
            program: Vec::new(),
            errors: Vec::new(),
            missing: Vec::new(),
            current_parent_label: None,
        };
        assert(parser.program.deep_view() =~= Seq::empty());
        assert(parser.errors.deep_view() =~= Seq::empty());
        assert(parser.missing.deep_view() =~= Seq::empty());
        parser
    }

    /// The actions gathered so far.
    pub fn program(&self) -> (program: &Program)
        ensures
            program.deep_view() == self@.program,
    {
        &self.program
    }

    /// The kind and the span of the token that comes next.
    fn peek(&self) -> (next: Option<(TokenKind, usize, usize)>)
        ensures
            0 <= self@.position <= self@.env.tokens.len(),
            match next {
                Some(token) => 0 <= self@.position < self@.env.tokens.len() && Some(token.0)
                    == kind_at(self@.env.tokens, self@.position) && token.1 == start_at(
                    self@.env.tokens,
                    self@.position,
                ) && token.2 == end_at(self@.env.tokens, self@.position),
                None => kind_at(self@.env.tokens, self@.position) is None,
            },
    {
        self.cursor.peek()
    }

    /// The kind of the token that comes next.
    fn peek_kind(&self) -> (kind: Option<TokenKind>)
        ensures
            0 <= self@.position <= self@.env.tokens.len(),
            kind == kind_at(self@.env.tokens, self@.position),
    {
        match self.peek() {
            Some(token) => Some(token.0),
            None => None,
        }
    }

    /// The text of the identifier or string that comes next.
    fn text(&self) -> (text: String)
        requires
            0 <= self@.position < self@.env.tokens.len(),
        ensures
            text@ == text_at(self@.env.tokens, self@.position),
    {
        self.cursor.text()
    }

    /// How diagnostics print the token that comes next.
    fn token_string(&self) -> (text: String)
        requires
            0 <= self@.position < self@.env.tokens.len(),
        ensures
            text@ == token_text(self@.env.tokens[self@.position].token),
    {
        self.cursor.token_string()
    }

    /// Takes the token that comes next.
    fn advance(&mut self)
        requires
            old(self)@.position < old(self)@.env.tokens.len(),
        ensures
            final(self)@ == old(self)@.at(old(self)@.position + 1),
    {
        self.cursor.advance();
    }

    /// Takes the token that comes next, if there is one.
    fn advance_if_any(&mut self)
        ensures
            final(self)@ == old(self)@.at(after_next(old(self)@.env.tokens, old(self)@.position)),
    {
        self.cursor.advance();
    }

    /// An error of this file with one label and no help.
    fn error(&self, message: &str, start: usize, end: usize) -> (error: AssemblerError)
        ensures
            error.deep_view() == syntax_error(self@.env, message@, start..end, None),
    {
        AssemblerError::at(String::from_str(message), start, end, &self.file_name, None, None)
    }

    /// The reference to a sublabel: the period comes next, from `start` to
    /// `end`, and its identifier must follow.
    fn parse_sublabel_reference(&mut self, start: usize, end: usize) -> (result: Result<
        Option<Spanned<Value>>,
        AssemblerError,
    >)
        requires
            kind_at(old(self)@.env.tokens, old(self)@.position) == Some(TokenKind::Period),
            start == start_at(old(self)@.env.tokens, old(self)@.position),
            end == end_at(old(self)@.env.tokens, old(self)@.position),
        ensures
            outcome_view(result) == sublabel_reference_spec(
                old(self)@.env,
                old(self)@.position,
                old(self)@.parent,
            ).result,
            final(self)@ == old(self)@.at(
                sublabel_reference_spec(old(self)@.env, old(self)@.position, old(self)@.parent).pos,
            ),
    {
        self.advance();
        match self.peek() {
            Some((TokenKind::Ident, _, name_end)) => {
                let name = self.text();
                self.advance();
                match &self.current_parent_label {
                    Some(parent) => {
                        let mut reference = parent.clone();
                        reference.append(".");
                        reference.append(name.as_str());
                        Ok(Some(Spanned::new((Value::Reference(reference), start..name_end))))
                    },
                    None => Err(
                        self.error(
                            "No parent label under which to refer to a sublabel",
                            start,
                            name_end,
                        ),
                    ),
                }
            },
            _ => Err(self.error("Expected a label after `.`", start, end)),
        }
    }

    /// Tries to parse a value.
    pub fn parse_value(&mut self) -> (result: Result<Option<Spanned<Value>>, AssemblerError>)
        ensures
            outcome_view(result) == value_spec(
                old(self)@.env,
                old(self)@.position,
                old(self)@.parent,
            ).result,
            final(self)@ == old(self)@.at(
                value_spec(old(self)@.env, old(self)@.position, old(self)@.parent).pos,
            ),
    {
        match self.peek() {
            Some((TokenKind::Byte(byte), start, end)) => {
                self.advance();
                Ok(Some(Spanned::new((Value::Byte(byte), start..end))))
            },
            Some((TokenKind::Word(word), start, end)) => {
                self.advance();
                Ok(Some(Spanned::new((Value::Word(word), start..end))))
            },
            Some((TokenKind::String, start, end)) => {
                let text = self.text();
                self.advance();
                Ok(Some(Spanned::new((Value::String(text), start..end))))
            },
            Some((TokenKind::Ident, start, end)) => {
                let text = self.text();
                self.advance();
                Ok(Some(Spanned::new((Value::Reference(text), start..end))))
            },
            Some((TokenKind::Period, start, end)) => self.parse_sublabel_reference(start, end),
            _ => Ok(None),
        }
    }

    /// Parses the value that must follow the modifier at `prefix_span`.
    pub fn expect_value(&mut self, prefix_span: Range<usize>) -> (result: Result<
        Spanned<Value>,
        AssemblerError,
    >)
        ensures
            match expect_value_spec(
                old(self)@.env,
                old(self)@.position,
                old(self)@.parent,
                prefix_span,
            ).result {
                Ok(Some(node)) => outcome_view(result) == Ok::<
                    SpannedView<ValueView>,
                    AssemblerErrorView,
                >(node),
                Ok(None) => false,
                Err(error) => outcome_view(result) == Err::<
                    SpannedView<ValueView>,
                    AssemblerErrorView,
                >(error),
            },
            final(self)@ == old(self)@.at(
                expect_value_spec(
                    old(self)@.env,
                    old(self)@.position,
                    old(self)@.parent,
                    prefix_span,
                ).pos,
            ),
    {
        match self.parse_value() {
            Ok(Some(value)) => Ok(value),
            Ok(None) => Err(
                self.error("Expected value after modifier", prefix_span.start, prefix_span.end),
            ),
            Err(error) => Err(error),
        }
    }

    /// Tries to parse a modifier.
    pub fn parse_modifier(&mut self) -> (modifier: Option<Spanned<Modifier>>)
        ensures
            modifier.deep_view() == match modifier_of(
                kind_at(old(self)@.env.tokens, old(self)@.position),
            ) {
                Some(found) => Some(
                    SpannedView {
                        val: found,
                        span: span_at(old(self)@.env.tokens, old(self)@.position),
                    },
                ),
                None => None,
            },
            final(self)@ == old(self)@.at(
                if modifier is Some {
                    old(self)@.position + 1
                } else {
                    old(self)@.position
                },
            ),
    {
        match self.peek() {
            Some((TokenKind::LAngle, start, end)) => {
                self.advance();
                Some(Spanned::new((Modifier::HighByte, start..end)))
            },
            Some((TokenKind::RAngle, start, end)) => {
                self.advance();
                Some(Spanned::new((Modifier::LowByte, start..end)))
            },
            _ => None,
        }
    }

    /// Parse a value with an optional modifier. A modifier without a value
    /// is an error.
    pub fn parse_modified_value(&mut self) -> (result: Result<
        Option<(Option<Spanned<Modifier>>, Spanned<Value>)>,
        AssemblerError,
    >)
        ensures
            outcome_view(result) == modified_value_spec(
                old(self)@.env,
                old(self)@.position,
                old(self)@.parent,
            ).result,
            final(self)@ == old(self)@.at(
                modified_value_spec(old(self)@.env, old(self)@.position, old(self)@.parent).pos,
            ),
    {
        match self.parse_modifier() {
            Some(modifier) => {
                let prefix = modifier.span.clone();
                match self.expect_value(prefix) {
                    Ok(value) => Ok(Some((Some(modifier), value))),
                    Err(error) => Err(error),
                }
            },
            None => {
                match self.parse_value() {
                    Ok(Some(value)) => Ok(Some((None, value))),
                    Ok(None) => Ok(None),
                    Err(error) => Err(error),
                }
            },
        }
    }

    /// What follows the value of an address: an index register, or nothing.
    fn parse_indexed(
        &mut self,
        start: usize,
        modifier: Option<Spanned<Modifier>>,
        value: Spanned<Value>,
    ) -> (result: Result<Option<Spanned<Operand>>, AssemblerError>)
        ensures
            outcome_view(result) == indexed_spec(
                old(self)@.env,
                old(self)@.position,
                start,
                modifier.deep_view(),
                value.deep_view(),
            ).result,
            final(self)@ == old(self)@.at(
                indexed_spec(
                    old(self)@.env,
                    old(self)@.position,
                    start,
                    modifier.deep_view(),
                    value.deep_view(),
                ).pos,
            ),
    {
        match self.peek() {
            Some((TokenKind::Comma, comma_start, comma_end)) => {
                self.advance();
                let next = self.peek();
                self.advance_if_any();
                match next {
                    Some((TokenKind::X, _, end)) => Ok(
                        Some(
                            Spanned::new(
                                (Operand { mode: OperandMode::XIndexed, modifier, value }, start..end),
                            ),
                        ),
                    ),
                    Some((TokenKind::Y, _, end)) => Ok(
                        Some(
                            Spanned::new(
                                (Operand { mode: OperandMode::YIndexed, modifier, value }, start..end),
                            ),
                        ),
                    ),
                    _ => Err(self.error("Expected `X` or `Y` after `,`", comma_start, comma_end)),
                }
            },
            _ => {
                let end = value.span.end;
                Ok(
                    Some(
                        Spanned::new(
                            (Operand { mode: OperandMode::Address, modifier, value }, start..end),
                        ),
                    ),
                )
            },
        }
    }

    /// What follows the value in parentheses. The parenthesis that opens the
    /// operand is the token at `open`, and the operand starts at `start`.
    fn parse_indirect(
        &mut self,
        Ghost(open): Ghost<int>,
        start: usize,
        modifier: Option<Spanned<Modifier>>,
        value: Spanned<Value>,
    ) -> (result: Result<Option<Spanned<Operand>>, AssemblerError>)
        requires
            0 <= open < old(self)@.env.tokens.len(),
            start == start_at(old(self)@.env.tokens, open),
        ensures
            outcome_view(result) == indirect_spec(
                old(self)@.env,
                old(self)@.position,
                open,
                modifier.deep_view(),
                value.deep_view(),
            ).result,
            final(self)@ == old(self)@.at(
                indirect_spec(
                    old(self)@.env,
                    old(self)@.position,
                    open,
                    modifier.deep_view(),
                    value.deep_view(),
                ).pos,
            ),
    {
        match self.peek() {
            Some((TokenKind::RParen, _, close_end)) => {
                self.advance();
                match self.peek() {
                    Some((TokenKind::Comma, comma_start, comma_end)) => {
                        self.advance();
                        let next = self.peek();
                        self.advance_if_any();
                        match next {
                            Some((TokenKind::Y, _, end)) => Ok(
                                Some(
                                    Spanned::new(
                                        (
                                            Operand { mode: OperandMode::IndirectY, modifier, value },
                                            start..end,
                                        ),
                                    ),
                                ),
                            ),
                            _ => Err(self.error("Expected `Y` after `,`", comma_start, comma_end)),
                        }
                    },
                    _ => Ok(
                        Some(
                            Spanned::new(
                                (
                                    Operand { mode: OperandMode::Indirect, modifier, value },
                                    start..close_end,
                                ),
                            ),
                        ),
                    ),
                }
            },
            Some((TokenKind::Comma, comma_start, comma_end)) => {
                self.advance();
                let next = self.peek();
                self.advance_if_any();
                match next {
                    Some((TokenKind::X, x_start, x_end)) => {
                        let close = self.peek();
                        self.advance_if_any();
                        match close {
                            Some((TokenKind::RParen, _, end)) => Ok(
                                Some(
                                    Spanned::new(
                                        (
                                            Operand { mode: OperandMode::XIndirect, modifier, value },
                                            start..end,
                                        ),
                                    ),
                                ),
                            ),
                            _ => Err(self.error("Expected `)` after `X`", x_start, x_end)),
                        }
                    },
                    _ => Err(self.error("Expected `X` after `,`", comma_start, comma_end)),
                }
            },
            _ => Err(
                self.error("Expected `)` or `,` after value", value.span.start, value.span.end),
            ),
        }
    }

    /// Parses the operand of an instruction, if one comes next.
    pub fn parse_operand(&mut self) -> (result: Result<Option<Spanned<Operand>>, AssemblerError>)
        ensures
            outcome_view(result) == operand_spec(
                old(self)@.env,
                old(self)@.position,
                old(self)@.parent,
            ).result,
            final(self)@ == old(self)@.at(
                operand_spec(old(self)@.env, old(self)@.position, old(self)@.parent).pos,
            ),
    {
        let ghost first = self@.position;
        match self.peek() {
            Some((TokenKind::A, start, end)) => {
                self.advance();
                Ok(
                    Some(
                        Spanned::new(
                            (
                                Operand {
                                    mode: OperandMode::Accumulator,
                                    modifier: None,
                                    value: Spanned::new((Value::Accumulator, start..end)),
                                },
                                start..end,
                            ),
                        ),
                    ),
                )
            },
            Some((TokenKind::Immediate, start, end)) => {
                self.advance();
                match self.parse_modified_value() {
                    Ok(Some((modifier, value))) => {
                        let operand_end = value.span.end;
                        Ok(
                            Some(
                                Spanned::new(
                                    (
                                        Operand { mode: OperandMode::Immediate, modifier, value },
                                        start..operand_end,
                                    ),
                                ),
                            ),
                        )
                    },
                    Ok(None) => Err(self.error("Expected value after `#`", start, end)),
                    Err(error) => Err(error),
                }
            },
            Some((TokenKind::LAngle, start, end)) => {
                self.advance();
                match self.expect_value(start..end) {
                    Ok(value) => self.parse_indexed(
                        start,
                        Some(Spanned::new((Modifier::HighByte, start..end))),
                        value,
                    ),
                    Err(error) => Err(error),
                }
            },
            Some((TokenKind::RAngle, start, end)) => {
                self.advance();
                match self.expect_value(start..end) {
                    Ok(value) => self.parse_indexed(
                        start,
                        Some(Spanned::new((Modifier::LowByte, start..end))),
                        value,
                    ),
                    Err(error) => Err(error),
                }
            },
            Some((TokenKind::LParen, start, end)) => {
                self.advance();
                match self.parse_modified_value() {
                    Ok(Some((modifier, value))) => self.parse_indirect(
                        Ghost(first),
                        start,
                        modifier,
                        value,
                    ),
                    Ok(None) => Err(self.error("Expected value after `(`", start, end)),
                    Err(error) => Err(error),
                }
            },
            Some((TokenKind::Period, start, end)) => {
                match self.parse_sublabel_reference(start, end) {
                    Ok(Some(value)) => {
                        let span = value.span.clone();
                        Ok(
                            Some(
                                Spanned::new(
                                    (
                                        Operand { mode: OperandMode::Address, modifier: None, value },
                                        span,
                                    ),
                                ),
                            ),
                        )
                    },
                    Ok(None) => Ok(None),
                    Err(error) => Err(error),
                }
            },
            Some((TokenKind::Byte(_), start, _)) | Some((TokenKind::Word(_), start, _)) | Some(
                (TokenKind::String, start, _),
            ) | Some((TokenKind::Ident, start, _)) => {
                match self.parse_value() {
                    Ok(Some(value)) => self.parse_indexed(start, None, value),
                    Ok(None) => Ok(None),
                    Err(error) => Err(error),
                }
            },
            _ => Ok(None),
        }
    }

    /// Parses the mnemonic that comes next, if one does.
    pub fn parse_mnemonic(&mut self) -> (mnemonic: Option<(Mnemonic, Range<usize>)>)
        ensures
            match mnemonic {
                Some(found) => mnemonic_at(old(self)@.env.tokens, old(self)@.position) == Some(
                    found.0,
                ) && found.1 == span_at(old(self)@.env.tokens, old(self)@.position)
                    && final(self)@ == old(self)@.at(old(self)@.position + 1),
                None => mnemonic_at(old(self)@.env.tokens, old(self)@.position) is None
                    && final(self)@ == old(self)@,
            },
    {
        match self.peek() {
            Some((TokenKind::Mnemonic(mnemonic), start, end)) => {
                self.advance();
                Some((mnemonic, start..end))
            },
            _ => None,
        }
    }

    /// Skips past the end of the line. What is skipped is a comment, so no
    /// comment character is needed. Returns where in the source the line
    /// ends, its newline included, or 0 if no token was skipped.
    pub fn skip_to_eol(&mut self) -> (end: usize)
        ensures
            end == line_end_offset(old(self)@.env.tokens, old(self)@.position),
            final(self)@ == old(self)@.at(
                line_end_pos(old(self)@.env.tokens, old(self)@.position),
            ),
    {
        let mut last_end: usize = 0;
        let ghost begin = self@.position;
        let _ = self.peek_kind();
        loop
            invariant
                self@ == old(self)@.at(self@.position),
                begin == old(self)@.position,
                begin <= self@.position <= self@.env.tokens.len(),
                line_end_pos(self@.env.tokens, self@.position) == line_end_pos(
                    self@.env.tokens,
                    begin,
                ),
                self@.position > begin ==> last_end == end_at(
                    self@.env.tokens,
                    self@.position - 1,
                ),
                self@.position == begin ==> last_end == 0,
                forall|i: int|
                    begin <= i < self@.position ==> kind_of(
                        (#[trigger] self@.env.tokens[i]).token,
                    ) != TokenKind::Eol,
            decreases self@.env.tokens.len() - self@.position,
        {
            proof {
                lemma_line_end_pos(self@.env.tokens, self@.position);
            }
            match self.peek() {
                None => {
                    return last_end;
                },
                Some((TokenKind::Eol, _, end)) => {
                    self.advance();
                    return end;
                },
                Some((_, _, end)) => {
                    self.advance();
                    last_end = end;
                },
            }
        }
    }
}

/// What parsing a file gave: its program, or the errors in it; and the
/// files that it includes and that are not among the sources.
#[derive(Debug, PartialEq)]
pub struct ParseReport {
    pub result: Result<Program, Vec<AssemblerError>>,
    pub missing: Vec<String>,
}

/// The model of the result of parsing a file.
pub open spec fn program_view(result: Result<Program, Vec<AssemblerError>>) -> Result<
    Seq<ActionView>,
    Seq<AssemblerErrorView>,
> {
    match result {
        Ok(program) => Ok(program.deep_view()),
        Err(errors) => Err(errors.deep_view()),
    }
}

impl DeepView for ParseReport {
    type V = ParseReportView;

    open spec fn deep_view(&self) -> ParseReportView {
        ParseReportView { result: program_view(self.result), missing: self.missing.deep_view() }
    }
}

/// The program of the file that an instruction stands for; empty for any
/// other instruction.
pub open spec fn included_program_of(
    result: Result<Option<Spanned<Instruction>>, AssemblerError>,
) -> Seq<ActionView> {
    match result {
        Ok(Some(instruction)) => match instruction.val.operand {
            Some(operand) => operand.val.value.val.included_program(),
            None => Seq::empty(),
        },
        _ => Seq::empty(),
    }
}

/// What a parser has gathered.
pub open spec fn gathered(parser: ParserView) -> Gathered {
    Gathered { program: parser.program, errors: parser.errors, missing: parser.missing }
}

/// A copy of the inclusions that are under way.
fn copy_stack(stack: &Vec<Include>) -> (copy: Vec<Include>)
    ensures
        copy.deep_view() == stack.deep_view(),
{
    let mut copy: Vec<Include> = Vec::new();
    let mut i: usize = 0;
    while i < stack.len()
        invariant
            i <= stack.len(),
            copy.len() == i,
            forall|k: int| 0 <= k < i ==> (#[trigger] copy[k]).deep_view() == stack[k].deep_view(),
        decreases stack.len() - i,
    {
        copy.push(
            Include { included: stack[i].included.clone(), loc: stack[i].loc.duplicate() },
        );
        i += 1;
    }
    assert(copy.deep_view() =~= stack.deep_view());
    copy
}

/// Whether the name of a file ends in `.65a`.
fn is_source_name(name: &String) -> (yes: bool)
    ensures
        yes == has_source_extension(name@),
{
    let chars = chars_of(name.as_str());
    let n = chars.len();
    n >= 5 && chars[n - 5] != '/' && chars[n - 4] == '.' && chars[n - 3] == '6' && chars[n - 2]
        == '5' && chars[n - 1] == 'a'
}

impl<'c> ParserContext<'c> {
    fn push_action(&mut self, action: Action)
        ensures
            final(self)@ == (ParserView {
                program: old(self)@.program.push(action.deep_view()),
                ..old(self)@
            }),
    {
        self.program.push(action);
        assert(self.program.deep_view() =~= old(self).program.deep_view().push(
            action.deep_view(),
        ));
    }

    fn append_program(&mut self, program: Program)
        ensures
            final(self)@ == (ParserView {
                program: old(self)@.program + program.deep_view(),
                ..old(self)@
            }),
    {
        let mut program = program;
        let ghost added = program.deep_view();
        self.program.append(&mut program);
        assert(self.program.deep_view() =~= old(self).program.deep_view() + added);
    }

    fn append_errors(&mut self, errors: Vec<AssemblerError>)
        ensures
            final(self)@ == (ParserView {
                errors: old(self)@.errors + errors.deep_view(),
                ..old(self)@
            }),
    {
        let mut errors = errors;
        let ghost added = errors.deep_view();
        self.errors.append(&mut errors);
        assert(self.errors.deep_view() =~= old(self).errors.deep_view() + added);
    }

    fn append_missing(&mut self, missing: Vec<String>)
        ensures
            final(self)@ == (ParserView {
                missing: old(self)@.missing + missing.deep_view(),
                ..old(self)@
            }),
    {
        let mut missing = missing;
        let ghost added = missing.deep_view();
        self.missing.append(&mut missing);
        assert(self.missing.deep_view() =~= old(self).missing.deep_view() + added);
    }

    /// The error for a sublabel under a sublabel.
    fn nested_error(
        &self,
        message: String,
        nested_start: usize,
        nested_end: usize,
        holder_start: usize,
        holder_end: usize,
    ) -> (error: AssemblerError)
        ensures
            error.deep_view() == nested_sublabel_error(
                self@.env,
                message@,
                nested_start..nested_end,
                holder_start..holder_end,
            ),
    {
        let mut labels: Vec<(Location, Option<String>)> = Vec::new();
        labels.push(
            (
                Location { span: nested_start..nested_end, file_name: self.file_name.clone() },
                Some(String::from_str("Nested sublabels are not allowed")),
            ),
        );
        labels.push(
            (
                Location { span: holder_start..holder_end, file_name: self.file_name.clone() },
                Some(String::from_str("sublabel already created here")),
            ),
        );
        let error = AssemblerError { message, labels, help: None };
        assert(error.labels.deep_view() =~= nested_sublabel_error(
            self@.env,
            message@,
            nested_start..nested_end,
            holder_start..holder_end,
        ).labels);
        error
    }

    /// The label whose identifier comes next, from `main_start` to
    /// `main_end`.
    fn parse_label_body(
        &mut self,
        global: Option<Range<usize>>,
        period: Option<Range<usize>>,
        main_start: usize,
        main_end: usize,
    ) -> (result: Result<Option<Spanned<Label>>, AssemblerError>)
        requires
            kind_at(old(self)@.env.tokens, old(self)@.position) == Some(TokenKind::Ident),
            main_start == start_at(old(self)@.env.tokens, old(self)@.position),
            main_end == end_at(old(self)@.env.tokens, old(self)@.position),
        ensures
            outcome_view(result) == label_body_spec(
                old(self)@.env,
                old(self)@.position,
                global,
                period,
            ).result,
            final(self)@ == (ParserView {
                position: label_body_spec(old(self)@.env, old(self)@.position, global, period).pos,
                parent: parent_after(
                    old(self)@.parent,
                    label_body_spec(old(self)@.env, old(self)@.position, global, period),
                ),
                ..old(self)@
            }),
    {
        let name = self.text();
        self.advance();
        match self.peek() {
            Some((TokenKind::Period, dot_start, dot_end)) => {
                self.advance();
                match self.peek() {
                    Some((TokenKind::Ident, sub_start, sub_end)) => {
                        let sub = self.text();
                        let shown = self.token_string();
                        self.advance();
                        match period {
                            Some(first) => {
                                let mut message = String::from_str("Cannot nest sublabel ");
                                message.append(shown.as_str());
                                message.append(" under ");
                                message.append(name.as_str());
                                Err(
                                    self.nested_error(
                                        message,
                                        dot_start,
                                        sub_end,
                                        first.start,
                                        main_end,
                                    ),
                                )
                            },
                            None => {
                                match self.peek() {
                                    Some((TokenKind::Period, nested_start, nested_dot_end)) => {
                                        self.advance();
                                        let nested_end = match self.peek() {
                                            Some((TokenKind::Ident, _, end)) => {
                                                self.advance();
                                                end
                                            },
                                            _ => nested_dot_end,
                                        };
                                        let mut message = String::from_str(
                                            "Cannot nest sublabel under ",
                                        );
                                        message.append(shown.as_str());
                                        Err(
                                            self.nested_error(
                                                message,
                                                nested_start,
                                                nested_end,
                                                dot_start,
                                                sub_end,
                                            ),
                                        )
                                    },
                                    _ => {
                                        match global {
                                            Some(mark) => Err(
                                                self.error(
                                                    "Cannot specify a global visibility with a sublabel",
                                                    mark.start,
                                                    mark.end,
                                                ),
                                            ),
                                            None => Ok(
                                                Some(
                                                    Spanned::new(
                                                        (
                                                            Label::Sub(
                                                                (
                                                                    Some(
                                                                        Spanned::new(
                                                                            (
                                                                                name,
                                                                                main_start..main_end,
                                                                            ),
                                                                        ),
                                                                    ),
                                                                    Spanned::new(
                                                                        (sub, sub_start..sub_end),
                                                                    ),
                                                                ),
                                                            ),
                                                            main_start..sub_end,
                                                        ),
                                                    ),
                                                ),
                                            ),
                                        }
                                    },
                                }
                            },
                        }
                    },
                    _ => Err(self.error("Expected a label after `.`", dot_start, dot_end)),
                }
            },
            _ => {
                match period {
                    Some(first) => Ok(
                        Some(
                            Spanned::new(
                                (
                                    Label::Sub(
                                        (None, Spanned::new((name, main_start..main_end))),
                                    ),
                                    first.start..main_end,
                                ),
                            ),
                        ),
                    ),
                    None => {
                        self.set_parent(name.clone());
                        let visibility = match global {
                            Some(_) => Visibility::Global,
                            None => Visibility::Object,
                        };
                        Ok(
                            Some(
                                Spanned::new(
                                    (
                                        Label::Top(TopLabel { name, visibility }),
                                        main_start..main_end,
                                    ),
                                ),
                            ),
                        )
                    },
                }
            },
        }
    }

    fn set_parent(&mut self, name: String)
        ensures
            final(self)@ == (ParserView { parent: Some(name@), ..old(self)@ }),
    {
        self.current_parent_label = Some(name);
    }

    /// The identifier that must follow the `!` or `.` that was just taken.
    fn parse_label_after_mark(
        &mut self,
        global: Option<Range<usize>>,
        period: Option<Range<usize>>,
        mark_start: usize,
        mark_end: usize,
    ) -> (result: Result<Option<Spanned<Label>>, AssemblerError>)
        requires
            1 <= old(self)@.position <= old(self)@.env.tokens.len(),
            mark_start == start_at(old(self)@.env.tokens, old(self)@.position - 1),
            mark_end == end_at(old(self)@.env.tokens, old(self)@.position - 1),
        ensures
            outcome_view(result) == label_after_mark_spec(
                old(self)@.env,
                old(self)@.position,
                global,
                period,
            ).result,
            final(self)@ == (ParserView {
                position: label_after_mark_spec(
                    old(self)@.env,
                    old(self)@.position,
                    global,
                    period,
                ).pos,
                parent: parent_after(
                    old(self)@.parent,
                    label_after_mark_spec(old(self)@.env, old(self)@.position, global, period),
                ),
                ..old(self)@
            }),
    {
        match self.peek() {
            None => Err(
                self.error("Unexpected end of file, expected a label", mark_start, mark_end),
            ),
            Some((TokenKind::Ident, start, end)) => self.parse_label_body(
                global,
                period,
                start,
                end,
            ),
            Some((_, start, end)) => {
                let shown = self.token_string();
                self.advance();
                let mut message = String::from_str("Unexpected token ");
                message.append(shown.as_str());
                Err(
                    AssemblerError::at(
                        message,
                        start,
                        end,
                        &self.file_name,
                        Some(String::from_str("Expected a label")),
                        None,
                    ),
                )
            },
        }
    }

    /// Parses an optional label at the beginning of a line.
    pub fn parse_label(&mut self) -> (result: Result<Option<Spanned<Label>>, AssemblerError>)
        ensures
            outcome_view(result) == label_spec(old(self)@.env, old(self)@.position).result,
            final(self)@ == (ParserView {
                position: label_spec(old(self)@.env, old(self)@.position).pos,
                parent: parent_after(
                    old(self)@.parent,
                    label_spec(old(self)@.env, old(self)@.position),
                ),
                ..old(self)@
            }),
    {
        match self.peek() {
            Some((TokenKind::Global, start, end)) => {
                self.advance();
                self.parse_label_after_mark(Some(start..end), None, start, end)
            },
            Some((TokenKind::Period, start, end)) => {
                self.advance();
                self.parse_label_after_mark(None, Some(start..end), start, end)
            },
            Some((TokenKind::Ident, start, end)) => self.parse_label_body(None, None, start, end),
            _ => Ok(None),
        }
    }

    /// Finds the inclusion of a file of that name that is under way.
    fn find_in_stack(&self, name: &String) -> (found: Option<usize>)
        ensures
            match found {
                Some(index) => stack_index(self@.env.stack, name@, 0) == Some(index as int)
                    && index < self@.env.stack.len(),
                None => stack_index(self@.env.stack, name@, 0) is None,
            },
    {
        let mut i: usize = 0;
        while i < self.include_stack.len()
            invariant
                i <= self.include_stack.len(),
                stack_index(self@.env.stack, name@, i as int) == stack_index(
                    self@.env.stack,
                    name@,
                    0,
                ),
            decreases self.include_stack.len() - i,
        {
            assert(self@.env.stack[i as int] == self.include_stack[i as int].deep_view());
            if self.include_stack[i].included == *name {
                return Some(i);
            }
            i += 1;
        }
        None
    }

    /// The error for a file that could not be read.
    fn unreadable(&self, name: &String, span: &Range<usize>, reason: &str) -> (errors: Vec<
        AssemblerError,
    >)
        ensures
            errors.deep_view() == seq![unreadable_error(self@.env, name@, *span, reason@)],
    {
        let mut message = String::from_str("Could not include \"");
        message.append(name.as_str());
        message.append("\": ");
        message.append(reason);
        let mut errors: Vec<AssemblerError> = Vec::new();
        errors.push(
            AssemblerError::at(message, span.start, span.end, &self.file_name, None, None),
        );
        assert(errors.deep_view() =~= seq![unreadable_error(self@.env, name@, *span, reason@)]);
        errors
    }

    /// The error for the inclusion of a file that is being included.
    fn recursive(&self, name: &String, span: &Range<usize>, found: usize) -> (errors: Vec<
        AssemblerError,
    >)
        requires
            found < self@.env.stack.len(),
        ensures
            errors.deep_view() == seq![
                recursive_include_error(self@.env, name@, *span, found as int),
            ],
    {
        let mut note = String::from_str("Could not include \"");
        note.append(name.as_str());
        note.append("\"");
        let mut help = String::from_str(
            "Labels can be referenced before they're defined,\nso including `",
        );
        help.append(name.as_str());
        help.append("` here may not be necessary");
        let mut labels: Vec<(Location, Option<String>)> = Vec::new();
        labels.push(
            (Location { span: span.clone(), file_name: self.file_name.clone() }, Some(note)),
        );
        assert(self@.env.stack[found as int] == self.include_stack[found as int].deep_view());
        labels.push(
            (
                self.include_stack[found].loc.duplicate(),
                Some(
                    String::from_str(
                        if found == 0 {
                            "Given in assembler invocatiion"
                        } else {
                            "Already included here"
                        },
                    ),
                ),
            ),
        );
        let error = AssemblerError {
            message: String::from_str("Recursive include found"),
            labels,
            help: Some(help),
        };
        assert(error.labels.deep_view() =~= recursive_include_error(
            self@.env,
            name@,
            *span,
            found as int,
        ).labels);
        let mut errors: Vec<AssemblerError> = Vec::new();
        errors.push(error);
        assert(errors.deep_view() =~= seq![
            recursive_include_error(self@.env, name@, *span, found as int),
        ]);
        errors
    }

    /// Parses an included file, preventing circular inclusion. Returns the
    /// name of the file, unless its inclusion is under way, and the result
    /// of parsing it.
    pub fn handle_include(&mut self, to_include_name: String, to_include_span: Range<usize>) -> (included:
        (Option<String>, Result<Program, Vec<AssemblerError>>))
        ensures
            included.0.deep_view() == if stack_index(
                old(self)@.env.stack,
                to_include_name@,
                0,
            ) is Some {
                None
            } else {
                Some(to_include_name@)
            },
            program_view(included.1) == include_spec(
                old(self)@.env,
                to_include_name@,
                to_include_span,
            ).result,
            final(self)@ == (ParserView {
                missing: old(self)@.missing + include_spec(
                    old(self)@.env,
                    to_include_name@,
                    to_include_span,
                ).missing,
                ..old(self)@
            }),
        decreases include_room(old(self)@.env), 0nat, 0nat,
    {
        proof {
            lemma_stack_index(self@.env.stack, to_include_name@, 0);
            lemma_source_index(self@.env.sources, to_include_name@, 0);
            assert(self@.missing + Seq::<Seq<char>>::empty() =~= self@.missing);
        }
        match self.find_in_stack(&to_include_name) {
            Some(found) => {
                let errors = self.recursive(&to_include_name, &to_include_span, found);
                return (None, Err(errors));
            },
            None => {},
        }
        let sources = self.sources;
        match find_source(sources, &to_include_name) {
            None => {
                let errors = self.unreadable(
                    &to_include_name,
                    &to_include_span,
                    "the file has not been read",
                );
                let mut missing: Vec<String> = Vec::new();
                missing.push(to_include_name.clone());
                assert(missing.deep_view() =~= seq![to_include_name@]);
                self.append_missing(missing);
                (Some(to_include_name), Err(errors))
            },
            Some(index) => {
                assert(sources.deep_view()[index as int] == sources[index as int].deep_view());
                match &sources[index].contents {
                    SourceText::Failed(reason) => {
                        let errors = self.unreadable(
                            &to_include_name,
                            &to_include_span,
                            reason.as_str(),
                        );
                        (Some(to_include_name), Err(errors))
                    },
                    SourceText::Read(text) => {
                        let mut stack = copy_stack(&self.include_stack);
                        let ghost before = stack.deep_view();
                        let inclusion = Include {
                            included: to_include_name.clone(),
                            loc: Location {
                                span: to_include_span.clone(),
                                file_name: self.file_name.clone(),
                            },
                        };
                        stack.push(inclusion);
                        proof {
                            assert(stack.deep_view() =~= before.push(inclusion.deep_view()));
                            assert(!stack_has(self@.env.stack, to_include_name@));
                            lemma_include_shrinks(
                                self@.env.sources,
                                self@.env.stack,
                                inclusion.deep_view(),
                                index as int,
                            );
                        }
                        let nested = ParserContext::new(
                            to_include_name.clone(),
                            text.as_str(),
                            sources,
                            stack,
                        );
                        assert(nested@.env == included_env(
                            self@.env,
                            to_include_name@,
                            to_include_span,
                            text@,
                        ));
                        let report = nested.parse();
                        self.append_missing(report.missing);
                        (Some(to_include_name), report.result)
                    },
                }
            },
        }
    }

    /// The directive `inl`, whose operand was parsed.
    fn parse_inl(&mut self, mnemonic_span: Range<usize>, operand: Option<Spanned<Operand>>) -> (result:
        Result<Option<Spanned<Instruction>>, AssemblerError>)
        ensures
            outcome_view(result) == inl_spec(
                old(self)@.env,
                mnemonic_span,
                operand.deep_view(),
                old(self)@.position,
            ).result,
            included_program_of(result) == inl_spec(
                old(self)@.env,
                mnemonic_span,
                operand.deep_view(),
                old(self)@.position,
            ).included,
            final(self)@ == (ParserView {
                errors: old(self)@.errors + inl_spec(
                    old(self)@.env,
                    mnemonic_span,
                    operand.deep_view(),
                    old(self)@.position,
                ).errors,
                missing: old(self)@.missing + inl_spec(
                    old(self)@.env,
                    mnemonic_span,
                    operand.deep_view(),
                    old(self)@.position,
                ).missing,
                ..old(self)@
            }),
        decreases include_room(old(self)@.env), 1nat, 0nat,
    {
        proof {
            assert(self@.missing + Seq::<Seq<char>>::empty() =~= self@.missing);
            assert(self@.errors + Seq::<AssemblerErrorView>::empty() =~= self@.errors);
        }
        let target: Option<(String, Range<usize>)> = match &operand {
            Some(node) => {
                match (&node.val.mode, &node.val.modifier, &node.val.value.val) {
                    (OperandMode::Address, None, Value::String(name)) => Some(
                        (name.clone(), node.span.clone()),
                    ),
                    _ => None,
                }
            },
            None => None,
        };
        match target {
            Some((name, span)) => {
                if is_source_name(&name) {
                    let start = mnemonic_span.start;
                    let end = span.end;
                    let (_, parsed) = self.handle_include(name.clone(), start..end);
                    match parsed {
                        Err(errors) => {
                            self.append_errors(errors);
                            Ok(None)
                        },
                        Ok(program) => Ok(
                            Some(
                                Spanned::new(
                                    (
                                        Instruction {
                                            mnemonic: Spanned::new((Mnemonic::Inl, mnemonic_span)),
                                            operand: Some(
                                                Spanned::new(
                                                    (
                                                        Operand {
                                                            mode: OperandMode::Immediate,
                                                            modifier: None,
                                                            value: Spanned::new(
                                                                (
                                                                    Value::Include((name, program)),
                                                                    span.clone(),
                                                                ),
                                                            ),
                                                        },
                                                        span,
                                                    ),
                                                ),
                                            ),
                                        },
                                        start..end,
                                    ),
                                ),
                            ),
                        ),
                    }
                } else {
                    let mut message = String::from_str("Could not include \"");
                    message.append(name.as_str());
                    message.append("\"");
                    Err(
                        AssemblerError::at(
                            message,
                            span.start,
                            span.end,
                            &self.file_name,
                            Some(String::from_str("File extension is expected to be `65a`")),
                            None,
                        ),
                    )
                }
            },
            None => {
                let span = match &operand {
                    Some(node) => node.span.clone(),
                    None => mnemonic_span,
                };
                Err(
                    AssemblerError::at(
                        String::from_str("Invalid operand to `inl`"),
                        span.start,
                        span.end,
                        &self.file_name,
                        Some(String::from_str("Expected an unmodified string literal")),
                        None,
                    ),
                )
            },
        }
    }

    /// Parses the optional instruction of a line. The file that an `inl`
    /// names is parsed here, and its program is the value of the operand.
    pub fn parse_instruction(&mut self) -> (result: Result<
        Option<Spanned<Instruction>>,
        AssemblerError,
    >)
        ensures
            outcome_view(result) == instruction_spec(
                old(self)@.env,
                old(self)@.position,
                old(self)@.parent,
            ).result,
            included_program_of(result) == instruction_spec(
                old(self)@.env,
                old(self)@.position,
                old(self)@.parent,
            ).included,
            final(self)@ == (ParserView {
                position: instruction_spec(
                    old(self)@.env,
                    old(self)@.position,
                    old(self)@.parent,
                ).pos,
                errors: old(self)@.errors + instruction_spec(
                    old(self)@.env,
                    old(self)@.position,
                    old(self)@.parent,
                ).errors,
                missing: old(self)@.missing + instruction_spec(
                    old(self)@.env,
                    old(self)@.position,
                    old(self)@.parent,
                ).missing,
                ..old(self)@
            }),
        decreases include_room(old(self)@.env), 2nat, 0nat,
    {
        proof {
            assert(self@.missing + Seq::<Seq<char>>::empty() =~= self@.missing);
            assert(self@.errors + Seq::<AssemblerErrorView>::empty() =~= self@.errors);
        }
        let (mnemonic, mnemonic_span) = match self.parse_mnemonic() {
            Some(found) => found,
            None => {
                return Ok(None);
            },
        };
        if mnemonic.is_implied() {
            return Ok(
                Some(
                    Spanned::new(
                        (
                            Instruction {
                                mnemonic: Spanned::new((mnemonic, mnemonic_span.clone())),
                                operand: None,
                            },
                            mnemonic_span,
                        ),
                    ),
                ),
            );
        }
        let operand = match self.parse_operand() {
            Ok(operand) => operand,
            Err(error) => {
                return Err(error);
            },
        };
        if let Mnemonic::Inl = mnemonic {
            return self.parse_inl(mnemonic_span, operand);
        }
        let start = mnemonic_span.start;
        let end = match &operand {
            Some(node) => node.span.end,
            None => mnemonic_span.end,
        };
        Ok(
            Some(
                Spanned::new(
                    (
                        Instruction { mnemonic: Spanned::new((mnemonic, mnemonic_span)), operand },
                        start..end,
                    ),
                ),
            ),
        )
    }

    /// Adds the rest of a line to the program: its instruction, its end
    /// after the comment, and the file that the instruction stands for.
    fn finish_line(&mut self, label_end: usize, instruction: Option<Spanned<Instruction>>)
        ensures
            final(self)@ == (ParserView {
                position: line_end_pos(old(self)@.env.tokens, old(self)@.position),
                program: old(self)@.program + line_tail(
                    old(self)@.env.tokens,
                    old(self)@.position,
                    label_end,
                    instruction.deep_view(),
                    included_program_of(Ok(instruction)),
                ),
                ..old(self)@
            }),
    {
        let ghost begin = self@;
        let ghost node = instruction.deep_view();
        let ghost nested = included_program_of(Ok(instruction));
        let mut line_end = label_end;
        let mut included: Option<(String, Program)> = None;
        match instruction {
            Some(node) => {
                line_end = node.span.end;
                let Spanned { val: Instruction { mnemonic, operand }, span } = node;
                match operand {
                    Some(
                        Spanned {
                            val: Operand {
                                mode,
                                modifier,
                                value: Spanned { val: Value::Include(parts), span: value_span },
                            },
                            span: operand_span,
                        },
                    ) => {
                        included = Some(parts);
                    },
                    other => {
                        self.push_action(
                            Action::Instruction(
                                Spanned { val: Instruction { mnemonic, operand: other }, span },
                            ),
                        );
                    },
                }
            },
            None => {},
        }
        let eol_end = self.skip_to_eol();
        if eol_end != 0 {
            line_end = eol_end;
        }
        self.push_action(Action::LineEnd(line_end));
        match included {
            Some((name, program)) => {
                self.push_action(Action::PushInclude(name));
                self.append_program(program);
                self.push_action(Action::PopInclude);
            },
            None => {},
        }
        assert(self@.program =~= begin.program + line_tail(
            begin.env.tokens,
            begin.position,
            label_end,
            node,
            nested,
        ));
    }

    /// Parse a line: the label, the mnemonic and the operand. After an
    /// error the rest of the line is skipped.
    pub fn parse_line(&mut self) -> (result: Result<(), AssemblerError>)
        ensures
            final(self)@ == (ParserView {
                position: line_spec(old(self)@.env, old(self)@.position, old(self)@.parent).pos,
                program: old(self)@.program + line_spec(
                    old(self)@.env,
                    old(self)@.position,
                    old(self)@.parent,
                ).actions,
                errors: old(self)@.errors + line_spec(
                    old(self)@.env,
                    old(self)@.position,
                    old(self)@.parent,
                ).errors,
                missing: old(self)@.missing + line_spec(
                    old(self)@.env,
                    old(self)@.position,
                    old(self)@.parent,
                ).missing,
                parent: line_spec(old(self)@.env, old(self)@.position, old(self)@.parent).parent,
                ..old(self)@
            }),
            match result {
                Ok(_) => line_spec(old(self)@.env, old(self)@.position, old(self)@.parent).error
                    is None,
                Err(error) => line_spec(
                    old(self)@.env,
                    old(self)@.position,
                    old(self)@.parent,
                ).error == Some(error.deep_view()),
            },
        decreases include_room(old(self)@.env), 3nat, 0nat,
    {
        let ghost begin = self@;
        proof {
            assert(begin.missing + Seq::<Seq<char>>::empty() =~= begin.missing);
            assert(begin.errors + Seq::<AssemblerErrorView>::empty() =~= begin.errors);
            assert(begin.program + Seq::<ActionView>::empty() =~= begin.program);
        }
        let label = match self.parse_label() {
            Ok(label) => label,
            Err(error) => {
                self.skip_to_eol();
                return Err(error);
            },
        };
        let ghost labelled: Seq<ActionView> = match label.deep_view() {
            Some(node) => seq![ActionView::Label(node)],
            None => Seq::empty(),
        };
        let mut label_end: usize = 0;
        match label {
            Some(node) => {
                label_end = node.span.end;
                self.push_action(Action::Label(node));
            },
            None => {},
        }
        assert(self@.program =~= begin.program + labelled);
        let instruction = match self.parse_instruction() {
            Ok(instruction) => instruction,
            Err(error) => {
                self.skip_to_eol();
                return Err(error);
            },
        };
        let ghost tail = line_tail(
            self@.env.tokens,
            self@.position,
            label_end,
            instruction.deep_view(),
            included_program_of(Ok(instruction)),
        );
        self.finish_line(label_end, instruction);
        assert((begin.program + labelled) + tail =~= begin.program + (labelled + tail));
        Ok(())
    }

    /// Parses the line that comes next and adds it to what was gathered.
    fn parse_next_line(&mut self)
        requires
            0 <= old(self)@.position < old(self)@.env.tokens.len(),
        ensures
            final(self)@.env == old(self)@.env,
            old(self)@.position < final(self)@.position <= final(self)@.env.tokens.len(),
            lines_spec(
                final(self)@.env,
                final(self)@.position,
                final(self)@.parent,
                gathered(final(self)@),
            ) == lines_spec(
                old(self)@.env,
                old(self)@.position,
                old(self)@.parent,
                gathered(old(self)@),
            ),
        decreases include_room(old(self)@.env), 4nat, 0nat,
    {
        proof {
            lemma_line_progress(self@.env, self@.position, self@.parent);
        }
        let ghost before = self@;
        let ghost line = line_spec(before.env, before.position, before.parent);
        let starts: Option<usize> = if self.program.len() == 0 {
            Some(0)
        } else {
            match &self.program[self.program.len() - 1] {
                Action::LineEnd(end) => Some(*end),
                _ => None,
            }
        };
        assert(self.program.len() > 0 ==> self@.program.last() == self.program[self.program.len()
            - 1].deep_view());
        match starts {
            Some(start) => {
                self.push_action(Action::LineStart(start));
            },
            None => {},
        }
        assert(self@.program =~= start_line(before.program));
        match self.parse_line() {
            Ok(_) => {
                assert(self@.errors =~= before.errors + line.errors + Seq::<
                    AssemblerErrorView,
                >::empty());
            },
            Err(error) => {
                let ghost shown = error.deep_view();
                let mut own: Vec<AssemblerError> = Vec::new();
                own.push(error);
                assert(own.deep_view() =~= seq![shown]);
                self.append_errors(own);
                assert(self@.errors =~= before.errors + line.errors + seq![shown]);
            },
        }
        assert(gathered(self@) == (Gathered {
            program: start_line(before.program) + line.actions,
            errors: before.errors + line.errors + match line.error {
                Some(error) => seq![error],
                None => Seq::empty(),
            },
            missing: before.missing + line.missing,
        }));
    }

    /// Parses the lines that are left, and reports what was gathered.
    pub fn parse(self) -> (report: ParseReport)
        ensures
            report.deep_view() == report_of(
                lines_spec(self@.env, self@.position, self@.parent, gathered(self@)),
            ),
        decreases include_room(self@.env), 5nat, 0nat,
    {
        let ghost begin = self@;
        let mut parser = self;
        let _ = parser.peek_kind();
        loop
            invariant
                begin == self@,
                parser@.env == begin.env,
                0 <= parser@.position <= parser@.env.tokens.len(),
                lines_spec(parser@.env, parser@.position, parser@.parent, gathered(parser@))
                    == lines_spec(begin.env, begin.position, begin.parent, gathered(begin)),
            ensures
                parser@.position >= parser@.env.tokens.len(),
            decreases parser@.env.tokens.len() - parser@.position,
        {
            if parser.peek_kind().is_none() {
                break ;
            }
            parser.parse_next_line();
        }
        let ghost done = parser@;
        assert(lines_spec(done.env, done.position, done.parent, gathered(done)) == gathered(done));
        let ParserContext { program, errors, missing, .. } = parser;
        assert(program.deep_view() == done.program);
        assert(errors.deep_view() == done.errors);
        assert(missing.deep_view() == done.missing);
        if errors.len() > 0 {
            ParseReport { result: Err(errors), missing }
        } else {
            ParseReport { result: Ok(program), missing }
        }
    }

    /// Parses the file: its program, or the errors in it and in the files
    /// that it includes.
    pub fn parse_program(self) -> (result: Result<Program, Vec<AssemblerError>>)
        ensures
            program_view(result) == report_of(
                lines_spec(self@.env, self@.position, self@.parent, gathered(self@)),
            ).result,
    {
        self.parse().result
    }
}

/// The first of the files that parsing `source` includes and that is not
/// among `sources`: it is to be read and added to them. When there is none,
/// the sources are complete.
pub fn missing_source(
    file_name: String,
    source: &str,
    sources: &Vec<SourceFile>,
    include_stack: Vec<Include>,
) -> (missing: Option<String>)
    ensures
        missing.deep_view() == ({
            let report = program_spec(
                ParseEnv {
                    file: file_name@,
                    tokens: tokens_from(source.spec_bytes(), 0),
                    sources: sources.deep_view(),
                    stack: include_stack.deep_view(),
                },
            );
            if report.missing.len() > 0 {
                Some(report.missing[0])
            } else {
                None
            }
        }),
{
    let report = ParserContext::new(file_name, source, sources, include_stack).parse();
    if report.missing.len() > 0 {
        Some(report.missing[0].clone())
    } else {
        None
    }
}

} // verus!
