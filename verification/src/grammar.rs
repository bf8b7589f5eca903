//! The grammar of a line of assembly, as functions from a sequence of tokens
//! and a position in it to what is parsed there and where parsing goes on.
//!
//! A line is `label? instruction?`, and what follows on the line is a
//! comment. These functions say what the parser returns; the parser itself
//! is in `parser`.

use crate::ast::{
    ActionView, IncludeView, InstructionView, LabelView, LocationView, Mnemonic, Modifier,
    OperandMode, OperandView, SpannedView, TopLabelView, ValueView, Visibility,
};
use crate::error::{error_at, label_at, AssemblerErrorView};
use crate::lexer::{kind_of, text_in, token_text, tokens_from, Scan, TokenKind};
use crate::sources::{source_index, SourceFileView, SourceTextView};
use std::ops::Range;
use vstd::prelude::*;
use vstd::utf8::encode_utf8;

verus! {

/// What a file is parsed in: its name, its tokens, the files that can be
/// included, and the inclusions that are under way.
pub struct ParseEnv {
    pub file: Seq<char>,
    pub tokens: Seq<Scan>,
    pub sources: Seq<SourceFileView>,
    pub stack: Seq<IncludeView>,
}

/// What was parsed, and the position after it: a node, nothing where the
/// tokens start no such node, or an error.
pub struct Parsed<T> {
    pub result: Result<Option<T>, AssemblerErrorView>,
    pub pos: int,
}

pub open spec fn found<T>(node: T, pos: int) -> Parsed<T> {
    Parsed { result: Ok(Some(node)), pos }
}

pub open spec fn nothing<T>(pos: int) -> Parsed<T> {
    Parsed { result: Ok(None), pos }
}

pub open spec fn failed<T>(error: AssemblerErrorView, pos: int) -> Parsed<T> {
    Parsed { result: Err(error), pos }
}

/// The kind of the token at a position; none past the last token.
pub open spec fn kind_at(tokens: Seq<Scan>, pos: int) -> Option<TokenKind> {
    if 0 <= pos < tokens.len() {
        Some(kind_of(tokens[pos].token))
    } else {
        None
    }
}

pub open spec fn text_at(tokens: Seq<Scan>, pos: int) -> Seq<char> {
    text_in(tokens[pos].token)
}

pub open spec fn start_at(tokens: Seq<Scan>, pos: int) -> usize {
    tokens[pos].start as usize
}

pub open spec fn end_at(tokens: Seq<Scan>, pos: int) -> usize {
    tokens[pos].end as usize
}

pub open spec fn span_at(tokens: Seq<Scan>, pos: int) -> Range<usize> {
    start_at(tokens, pos)..end_at(tokens, pos)
}

/// The position after a token is taken at `pos`, if there is one.
pub open spec fn after_next(tokens: Seq<Scan>, pos: int) -> int {
    if pos < tokens.len() {
        pos + 1
    } else {
        pos
    }
}

/// An error of this file with one label and no help.
pub open spec fn syntax_error(
    env: ParseEnv,
    message: Seq<char>,
    span: Range<usize>,
    note: Option<Seq<char>>,
) -> AssemblerErrorView {
    error_at(message, span.start as int, span.end as int, env.file, note, None)
}

/// The name by which a sublabel is referred to: its parent, a period, and
/// its own name.
pub open spec fn sublabel_name(parent: Seq<char>, name: Seq<char>) -> Seq<char> {
    parent + "."@ + name
}

/// A reference to a sublabel of the current parent: the period at `pos` and
/// the identifier that must follow it.
pub open spec fn sublabel_reference_spec(
    env: ParseEnv,
    pos: int,
    parent: Option<Seq<char>>,
) -> Parsed<SpannedView<ValueView>> {
    if kind_at(env.tokens, pos + 1) == Some(TokenKind::Ident) {
        let span = start_at(env.tokens, pos)..end_at(env.tokens, pos + 1);
        match parent {
            Some(parent) => found(
                SpannedView {
                    val: ValueView::Reference(sublabel_name(parent, text_at(env.tokens, pos + 1))),
                    span,
                },
                pos + 2,
            ),
            None => failed(
                syntax_error(
                    env,
                    "No parent label under which to refer to a sublabel"@,
                    span,
                    None,
                ),
                pos + 2,
            ),
        }
    } else {
        failed(
            syntax_error(env, "Expected a label after `.`"@, span_at(env.tokens, pos), None),
            pos + 1,
        )
    }
}

/// A value: a literal, an identifier, or a period and the sublabel it
/// refers to.
pub open spec fn value_spec(env: ParseEnv, pos: int, parent: Option<Seq<char>>) -> Parsed<
    SpannedView<ValueView>,
> {
    let span = span_at(env.tokens, pos);
    match kind_at(env.tokens, pos) {
        Some(TokenKind::Byte(byte)) => found(SpannedView { val: ValueView::Byte(byte), span }, pos + 1),
        Some(TokenKind::Word(word)) => found(SpannedView { val: ValueView::Word(word), span }, pos + 1),
        Some(TokenKind::String) => found(
            SpannedView { val: ValueView::String(text_at(env.tokens, pos)), span },
            pos + 1,
        ),
        Some(TokenKind::Ident) => found(
            SpannedView { val: ValueView::Reference(text_at(env.tokens, pos)), span },
            pos + 1,
        ),
        Some(TokenKind::Period) => sublabel_reference_spec(env, pos, parent),
        _ => nothing(pos),
    }
}

/// A value that must stand at `pos`, after the modifier at `prefix`.
pub open spec fn expect_value_spec(
    env: ParseEnv,
    pos: int,
    parent: Option<Seq<char>>,
    prefix: Range<usize>,
) -> Parsed<SpannedView<ValueView>> {
    let value = value_spec(env, pos, parent);
    match value.result {
        Ok(None) => failed(
            syntax_error(env, "Expected value after modifier"@, prefix, None),
            value.pos,
        ),
        _ => value,
    }
}

/// The modifier that a token is: `<` takes the high byte and `>` the low.
pub open spec fn modifier_of(kind: Option<TokenKind>) -> Option<Modifier> {
    match kind {
        Some(TokenKind::LAngle) => Some(Modifier::HighByte),
        Some(TokenKind::RAngle) => Some(Modifier::LowByte),
        _ => None,
    }
}

/// A value with an optional modifier before it. A modifier must be
/// followed by a value.
pub open spec fn modified_value_spec(
    env: ParseEnv,
    pos: int,
    parent: Option<Seq<char>>,
) -> Parsed<(Option<SpannedView<Modifier>>, SpannedView<ValueView>)> {
    match modifier_of(kind_at(env.tokens, pos)) {
        Some(modifier) => {
            let value = expect_value_spec(env, pos + 1, parent, span_at(env.tokens, pos));
            match value.result {
                Ok(Some(node)) => found(
                    (Some(SpannedView { val: modifier, span: span_at(env.tokens, pos) }), node),
                    value.pos,
                ),
                Ok(None) => nothing(value.pos),
                Err(error) => failed(error, value.pos),
            }
        },
        None => {
            let value = value_spec(env, pos, parent);
            match value.result {
                Ok(Some(node)) => found((None, node), value.pos),
                Ok(None) => nothing(value.pos),
                Err(error) => failed(error, value.pos),
            }
        },
    }
}

pub open spec fn operand_node(
    mode: OperandMode,
    modifier: Option<SpannedView<Modifier>>,
    value: SpannedView<ValueView>,
    start: usize,
    end: usize,
) -> SpannedView<OperandView> {
    SpannedView { val: OperandView { mode, modifier, value }, span: start..end }
}

/// What follows the value of an address: `,X` or `,Y` makes it indexed, and
/// anything else leaves it as it is. The operand starts at `start`.
pub open spec fn indexed_spec(
    env: ParseEnv,
    pos: int,
    start: usize,
    modifier: Option<SpannedView<Modifier>>,
    value: SpannedView<ValueView>,
) -> Parsed<SpannedView<OperandView>> {
    if kind_at(env.tokens, pos) == Some(TokenKind::Comma) {
        match kind_at(env.tokens, pos + 1) {
            Some(TokenKind::X) => found(
                operand_node(
                    OperandMode::XIndexed,
                    modifier,
                    value,
                    start,
                    end_at(env.tokens, pos + 1),
                ),
                pos + 2,
            ),
            Some(TokenKind::Y) => found(
                operand_node(
                    OperandMode::YIndexed,
                    modifier,
                    value,
                    start,
                    end_at(env.tokens, pos + 1),
                ),
                pos + 2,
            ),
            _ => failed(
                syntax_error(
                    env,
                    "Expected `X` or `Y` after `,`"@,
                    span_at(env.tokens, pos),
                    None,
                ),
                after_next(env.tokens, pos + 1),
            ),
        }
    } else {
        found(operand_node(OperandMode::Address, modifier, value, start, value.span.end), pos)
    }
}

/// What follows the value in parentheses, the first of which is at `open`:
/// `)` closes an indirect address, `),Y` one indexed by Y, and `,X)` one
/// indexed by X.
pub open spec fn indirect_spec(
    env: ParseEnv,
    pos: int,
    open: int,
    modifier: Option<SpannedView<Modifier>>,
    value: SpannedView<ValueView>,
) -> Parsed<SpannedView<OperandView>> {
    let start = start_at(env.tokens, open);
    match kind_at(env.tokens, pos) {
        Some(TokenKind::RParen) => if kind_at(env.tokens, pos + 1) == Some(TokenKind::Comma) {
            if kind_at(env.tokens, pos + 2) == Some(TokenKind::Y) {
                found(
                    operand_node(
                        OperandMode::IndirectY,
                        modifier,
                        value,
                        start,
                        end_at(env.tokens, pos + 2),
                    ),
                    pos + 3,
                )
            } else {
                failed(
                    syntax_error(
                        env,
                        "Expected `Y` after `,`"@,
                        span_at(env.tokens, pos + 1),
                        None,
                    ),
                    after_next(env.tokens, pos + 2),
                )
            }
        } else {
            found(
                operand_node(
                    OperandMode::Indirect,
                    modifier,
                    value,
                    start,
                    end_at(env.tokens, pos),
                ),
                pos + 1,
            )
        },
        Some(TokenKind::Comma) => if kind_at(env.tokens, pos + 1) == Some(TokenKind::X) {
            if kind_at(env.tokens, pos + 2) == Some(TokenKind::RParen) {
                found(
                    operand_node(
                        OperandMode::XIndirect,
                        modifier,
                        value,
                        start,
                        end_at(env.tokens, pos + 2),
                    ),
                    pos + 3,
                )
            } else {
                failed(
                    syntax_error(
                        env,
                        "Expected `)` after `X`"@,
                        span_at(env.tokens, pos + 1),
                        None,
                    ),
                    after_next(env.tokens, pos + 2),
                )
            }
        } else {
            failed(
                syntax_error(env, "Expected `X` after `,`"@, span_at(env.tokens, pos), None),
                after_next(env.tokens, pos + 1),
            )
        },
        _ => failed(syntax_error(env, "Expected `)` or `,` after value"@, value.span, None), pos),
    }
}

/// The operand of an instruction, by its first token: `A` is the
/// accumulator, `#` starts an immediate value, `<` and `>` modify an
/// address, `(` starts an indirect address, `.` refers to a sublabel, and a
/// literal or an identifier is an address.
pub open spec fn operand_spec(env: ParseEnv, pos: int, parent: Option<Seq<char>>) -> Parsed<
    SpannedView<OperandView>,
> {
    let first = span_at(env.tokens, pos);
    match kind_at(env.tokens, pos) {
        Some(TokenKind::A) => found(
            operand_node(
                OperandMode::Accumulator,
                None,
                SpannedView { val: ValueView::Accumulator, span: first },
                first.start,
                first.end,
            ),
            pos + 1,
        ),
        Some(TokenKind::Immediate) => {
            let value = modified_value_spec(env, pos + 1, parent);
            match value.result {
                Ok(Some(parts)) => found(
                    operand_node(
                        OperandMode::Immediate,
                        parts.0,
                        parts.1,
                        first.start,
                        parts.1.span.end,
                    ),
                    value.pos,
                ),
                Ok(None) => failed(
                    syntax_error(env, "Expected value after `#`"@, first, None),
                    value.pos,
                ),
                Err(error) => failed(error, value.pos),
            }
        },
        Some(TokenKind::LAngle) | Some(TokenKind::RAngle) => {
            let value = expect_value_spec(env, pos + 1, parent, first);
            match value.result {
                Ok(Some(node)) => indexed_spec(
                    env,
                    value.pos,
                    first.start,
                    Some(
                        SpannedView {
                            val: if kind_at(env.tokens, pos) == Some(TokenKind::LAngle) {
                                Modifier::HighByte
                            } else {
                                Modifier::LowByte
                            },
                            span: first,
                        },
                    ),
                    node,
                ),
                Ok(None) => nothing(value.pos),
                Err(error) => failed(error, value.pos),
            }
        },
        Some(TokenKind::LParen) => {
            let value = modified_value_spec(env, pos + 1, parent);
            match value.result {
                Ok(Some(parts)) => indirect_spec(env, value.pos, pos, parts.0, parts.1),
                Ok(None) => failed(
                    syntax_error(env, "Expected value after `(`"@, first, None),
                    value.pos,
                ),
                Err(error) => failed(error, value.pos),
            }
        },
        Some(TokenKind::Period) => {
            let value = sublabel_reference_spec(env, pos, parent);
            match value.result {
                Ok(Some(node)) => found(
                    operand_node(OperandMode::Address, None, node, node.span.start, node.span.end),
                    value.pos,
                ),
                Ok(None) => nothing(value.pos),
                Err(error) => failed(error, value.pos),
            }
        },
        Some(TokenKind::Byte(_)) | Some(TokenKind::Word(_)) | Some(TokenKind::String) | Some(
            TokenKind::Ident,
        ) => {
            let value = value_spec(env, pos, parent);
            match value.result {
                Ok(Some(node)) => indexed_spec(env, value.pos, first.start, None, node),
                Ok(None) => nothing(value.pos),
                Err(error) => failed(error, value.pos),
            }
        },
        _ => nothing(pos),
    }
}

/// The error for a sublabel under a sublabel: it points at the nested
/// sublabel and at the one that holds it.
pub open spec fn nested_sublabel_error(
    env: ParseEnv,
    message: Seq<char>,
    nested: Range<usize>,
    holder: Range<usize>,
) -> AssemblerErrorView {
    AssemblerErrorView {
        message,
        labels: seq![
            label_at(
                nested.start as int,
                nested.end as int,
                env.file,
                Some("Nested sublabels are not allowed"@),
            ),
            label_at(
                holder.start as int,
                holder.end as int,
                env.file,
                Some("sublabel already created here"@),
            ),
        ],
        help: None,
    }
}

/// The label whose identifier is at `pos`, after `!` at `global` or `.` at
/// `period` if one of them came before it. `name.sub` is a sublabel with
/// its parent stated; a sublabel is never global and holds no sublabel.
pub open spec fn label_body_spec(
    env: ParseEnv,
    pos: int,
    global: Option<Range<usize>>,
    period: Option<Range<usize>>,
) -> Parsed<SpannedView<LabelView>> {
    let name = text_at(env.tokens, pos);
    let main = span_at(env.tokens, pos);
    if kind_at(env.tokens, pos + 1) == Some(TokenKind::Period) {
        let dot = span_at(env.tokens, pos + 1);
        if kind_at(env.tokens, pos + 2) == Some(TokenKind::Ident) {
            let sub = text_at(env.tokens, pos + 2);
            let sub_span = span_at(env.tokens, pos + 2);
            match period {
                Some(first) => failed(
                    nested_sublabel_error(
                        env,
                        "Cannot nest sublabel "@ + token_text(env.tokens[pos + 2].token)
                            + " under "@ + name,
                        dot.start..sub_span.end,
                        first.start..main.end,
                    ),
                    pos + 3,
                ),
                None => if kind_at(env.tokens, pos + 3) == Some(TokenKind::Period) {
                    let named = kind_at(env.tokens, pos + 4) == Some(TokenKind::Ident);
                    failed(
                        nested_sublabel_error(
                            env,
                            "Cannot nest sublabel under "@ + token_text(
                                env.tokens[pos + 2].token,
                            ),
                            start_at(env.tokens, pos + 3)..(if named {
                                end_at(env.tokens, pos + 4)
                            } else {
                                end_at(env.tokens, pos + 3)
                            }),
                            dot.start..sub_span.end,
                        ),
                        if named {
                            pos + 5
                        } else {
                            pos + 4
                        },
                    )
                } else {
                    match global {
                        Some(mark) => failed(
                            syntax_error(
                                env,
                                "Cannot specify a global visibility with a sublabel"@,
                                mark,
                                None,
                            ),
                            pos + 3,
                        ),
                        None => found(
                            SpannedView {
                                val: LabelView::Sub(
                                    Some(SpannedView { val: name, span: main }),
                                    SpannedView { val: sub, span: sub_span },
                                ),
                                span: main.start..sub_span.end,
                            },
                            pos + 3,
                        ),
                    }
                },
            }
        } else {
            failed(syntax_error(env, "Expected a label after `.`"@, dot, None), pos + 2)
        }
    } else {
        match period {
            Some(first) => found(
                SpannedView {
                    val: LabelView::Sub(None, SpannedView { val: name, span: main }),
                    span: first.start..main.end,
                },
                pos + 1,
            ),
            None => found(
                SpannedView {
                    val: LabelView::Top(
                        TopLabelView {
                            name,
                            visibility: if global is Some {
                                Visibility::Global
                            } else {
                                Visibility::Object
                            },
                        },
                    ),
                    span: main,
                },
                pos + 1,
            ),
        }
    }
}

/// The identifier that must follow the `!` or `.` that stands at `pos - 1`.
pub open spec fn label_after_mark_spec(
    env: ParseEnv,
    pos: int,
    global: Option<Range<usize>>,
    period: Option<Range<usize>>,
) -> Parsed<SpannedView<LabelView>> {
    match kind_at(env.tokens, pos) {
        None => failed(
            syntax_error(
                env,
                "Unexpected end of file, expected a label"@,
                span_at(env.tokens, pos - 1),
                None,
            ),
            pos,
        ),
        Some(TokenKind::Ident) => label_body_spec(env, pos, global, period),
        Some(_) => failed(
            syntax_error(
                env,
                "Unexpected token "@ + token_text(env.tokens[pos].token),
                span_at(env.tokens, pos),
                Some("Expected a label"@),
            ),
            pos + 1,
        ),
    }
}

/// The optional label at the beginning of a line: `!name` is global,
/// `.name` a sublabel of the current parent, and `name` a label of the
/// object or, as `name.sub`, a sublabel with its parent stated.
pub open spec fn label_spec(env: ParseEnv, pos: int) -> Parsed<SpannedView<LabelView>> {
    match kind_at(env.tokens, pos) {
        Some(TokenKind::Global) => label_after_mark_spec(
            env,
            pos + 1,
            Some(span_at(env.tokens, pos)),
            None,
        ),
        Some(TokenKind::Period) => label_after_mark_spec(
            env,
            pos + 1,
            None,
            Some(span_at(env.tokens, pos)),
        ),
        Some(TokenKind::Ident) => label_body_spec(env, pos, None, None),
        _ => nothing(pos),
    }
}

/// The parent of the sublabels that follow: a top label becomes it.
pub open spec fn parent_after(
    parent: Option<Seq<char>>,
    label: Parsed<SpannedView<LabelView>>,
) -> Option<Seq<char>> {
    match label.result {
        Ok(Some(node)) => match node.val {
            LabelView::Top(top) => Some(top.name),
            _ => parent,
        },
        _ => parent,
    }
}

/// The mnemonic at a position, if a mnemonic stands there.
pub open spec fn mnemonic_at(tokens: Seq<Scan>, pos: int) -> Option<Mnemonic> {
    match kind_at(tokens, pos) {
        Some(TokenKind::Mnemonic(mnemonic)) => Some(mnemonic),
        _ => None,
    }
}

/// Where the line ends that `pos` is in: after its end-of-line token, or
/// after the last token.
pub open spec fn line_end_pos(tokens: Seq<Scan>, pos: int) -> int
    decreases tokens.len() - pos,
{
    if pos < 0 || pos >= tokens.len() {
        pos
    } else if kind_of(tokens[pos].token) == TokenKind::Eol {
        pos + 1
    } else {
        line_end_pos(tokens, pos + 1)
    }
}

/// Where in the source the rest of the line ends: at the end of the last
/// token that is skipped; zero if there is none to skip.
pub open spec fn line_end_offset(tokens: Seq<Scan>, pos: int) -> usize {
    if line_end_pos(tokens, pos) > pos && pos >= 0 {
        end_at(tokens, line_end_pos(tokens, pos) - 1)
    } else {
        0
    }
}

pub proof fn lemma_line_end_pos(tokens: Seq<Scan>, pos: int)
    requires
        0 <= pos <= tokens.len(),
    ensures
        pos <= line_end_pos(tokens, pos) <= tokens.len(),
        pos < tokens.len() ==> pos < line_end_pos(tokens, pos),
    decreases tokens.len() - pos,
{
    if pos < tokens.len() && kind_of(tokens[pos].token) != TokenKind::Eol {
        lemma_line_end_pos(tokens, pos + 1);
    }
}

/// An inclusion of a file of that name is under way.
pub open spec fn stack_has(stack: Seq<IncludeView>, name: Seq<char>) -> bool {
    exists|k: int| 0 <= k < stack.len() && (#[trigger] stack[k]).included == name
}

/// The first inclusion from `from` on that is of a file of that name.
pub open spec fn stack_index(stack: Seq<IncludeView>, name: Seq<char>, from: int) -> Option<int>
    decreases stack.len() - from,
{
    if from < 0 || from >= stack.len() {
        None
    } else if stack[from].included == name {
        Some(from)
    } else {
        stack_index(stack, name, from + 1)
    }
}

pub proof fn lemma_stack_index(stack: Seq<IncludeView>, name: Seq<char>, from: int)
    requires
        0 <= from,
    ensures
        match stack_index(stack, name, from) {
            Some(index) => from <= index < stack.len() && stack[index].included == name,
            None => forall|k: int| from <= k < stack.len() ==> (#[trigger] stack[k]).included
                != name,
        },
    decreases stack.len() - from,
{
    if from < stack.len() && stack[from].included != name {
        lemma_stack_index(stack, name, from + 1);
    }
}

/// The files that can still be included: those of which no inclusion is
/// under way.
pub open spec fn free_sources(sources: Seq<SourceFileView>, stack: Seq<IncludeView>) -> Set<int> {
    Set::new(|j: int| 0 <= j < sources.len() && !stack_has(stack, sources[j].name))
}

/// How many files can still be included. Every inclusion takes one away,
/// which is why inclusion ends.
pub open spec fn include_room(env: ParseEnv) -> nat {
    free_sources(env.sources, env.stack).len()
}

pub proof fn lemma_free_sources_finite(sources: Seq<SourceFileView>, stack: Seq<IncludeView>)
    ensures
        free_sources(sources, stack).finite(),
{
    let all = vstd::set_lib::set_int_range(0, sources.len() as int);
    vstd::set_lib::lemma_int_range(0, sources.len() as int);
    assert(free_sources(sources, stack).subset_of(all));
    vstd::set_lib::lemma_len_subset(free_sources(sources, stack), all);
}

/// Including a file that is not being included leaves fewer to include.
pub proof fn lemma_include_shrinks(
    sources: Seq<SourceFileView>,
    stack: Seq<IncludeView>,
    inclusion: IncludeView,
    index: int,
)
    requires
        0 <= index < sources.len(),
        sources[index].name == inclusion.included,
        !stack_has(stack, inclusion.included),
    ensures
        free_sources(sources, stack.push(inclusion)).len() < free_sources(sources, stack).len(),
{
    let before = free_sources(sources, stack);
    let pushed = stack.push(inclusion);
    let after = free_sources(sources, pushed);
    lemma_free_sources_finite(sources, stack);
    lemma_free_sources_finite(sources, pushed);
    assert(pushed[stack.len() as int].included == inclusion.included);
    assert(stack_has(pushed, sources[index].name));
    assert(before.contains(index));
    assert forall|j: int| after.contains(j) implies before.remove(index).contains(j) by {
        if stack_has(stack, sources[j].name) {
            let k = choose|k: int| 0 <= k < stack.len() && (#[trigger] stack[k]).included
                == sources[j].name;
            assert(pushed[k].included == sources[j].name);
            assert(stack_has(pushed, sources[j].name));
        }
    }
    assert(after.subset_of(before.remove(index)));
    vstd::set_lib::lemma_len_subset(after, before.remove(index));
}

/// The name of a file ends in `.65a`, and more than that is its name.
pub open spec fn has_source_extension(name: Seq<char>) -> bool {
    &&& name.len() >= 5
    &&& name[name.len() - 5] != '/'
    &&& name[name.len() - 4] == '.'
    &&& name[name.len() - 3] == '6'
    &&& name[name.len() - 2] == '5'
    &&& name[name.len() - 1] == 'a'
}

/// What parsing a file gives: its program, or the errors in it; and the
/// files that it includes and that are not among the sources.
pub struct ParseReportView {
    pub result: Result<Seq<ActionView>, Seq<AssemblerErrorView>>,
    pub missing: Seq<Seq<char>>,
}

/// The error for the inclusion of a file that is being included: it points
/// at the `inl` and at the inclusion that is under way.
pub open spec fn recursive_include_error(
    env: ParseEnv,
    name: Seq<char>,
    span: Range<usize>,
    found: int,
) -> AssemblerErrorView {
    AssemblerErrorView {
        message: "Recursive include found"@,
        labels: seq![
            (
                LocationView { span, file_name: env.file },
                Some("Could not include \""@ + name + "\""@),
            ),
            (
                env.stack[found].loc,
                Some(
                    if found == 0 {
                        "Given in assembler invocatiion"@
                    } else {
                        "Already included here"@
                    },
                ),
            ),
        ],
        help: Some(
            "Labels can be referenced before they're defined,\nso including `"@ + name
                + "` here may not be necessary"@,
        ),
    }
}

/// The error for a file that could not be read.
pub open spec fn unreadable_error(
    env: ParseEnv,
    name: Seq<char>,
    span: Range<usize>,
    reason: Seq<char>,
) -> AssemblerErrorView {
    syntax_error(env, "Could not include \""@ + name + "\": "@ + reason, span, None)
}

/// What is parsed in an included file.
pub open spec fn included_env(env: ParseEnv, name: Seq<char>, span: Range<usize>, text: Seq<char>) -> ParseEnv {
    ParseEnv {
        file: name,
        tokens: tokens_from(encode_utf8(text), 0),
        sources: env.sources,
        stack: env.stack.push(
            IncludeView { included: name, loc: LocationView { span, file_name: env.file } },
        ),
    }
}

/// The inclusion of the file `name` by the `inl` at `span`. A file that is
/// being included cannot be included, a file that was not read or could not
/// be read is an error, and any other file is parsed, with this inclusion
/// under way.
pub open spec fn include_spec(env: ParseEnv, name: Seq<char>, span: Range<usize>) -> ParseReportView
    decreases include_room(env), 0nat, 0nat,
{
    match stack_index(env.stack, name, 0) {
        Some(found) => ParseReportView {
            result: Err(seq![recursive_include_error(env, name, span, found)]),
            missing: Seq::empty(),
        },
        None => match source_index(env.sources, name, 0) {
            None => ParseReportView {
                result: Err(
                    seq![unreadable_error(env, name, span, "the file has not been read"@)],
                ),
                missing: seq![name],
            },
            Some(index) => match env.sources[index].contents {
                SourceTextView::Failed(reason) => ParseReportView {
                    result: Err(seq![unreadable_error(env, name, span, reason)]),
                    missing: Seq::empty(),
                },
                SourceTextView::Read(text) => {
                    if include_room(included_env(env, name, span, text)) < include_room(env) {
                        program_spec(included_env(env, name, span, text))
                    } else {
                        ParseReportView { result: Ok(Seq::empty()), missing: Seq::empty() }
                    }
                },
            },
        },
    }
}

/// An instruction as it is parsed, with what the inclusion of a file added.
pub struct InstructionParse {
    pub result: Result<Option<SpannedView<InstructionView>>, AssemblerErrorView>,
    /// The program of the file that an `inl` included.
    pub included: Seq<ActionView>,
    /// The errors in the file that an `inl` included.
    pub errors: Seq<AssemblerErrorView>,
    /// The files that were not among the sources.
    pub missing: Seq<Seq<char>>,
    pub pos: int,
}

/// An instruction that includes no file.
pub open spec fn plain(parsed: Parsed<SpannedView<InstructionView>>) -> InstructionParse {
    InstructionParse {
        result: parsed.result,
        included: Seq::empty(),
        errors: Seq::empty(),
        missing: Seq::empty(),
        pos: parsed.pos,
    }
}

/// The name of the file that an operand of `inl` names: the operand must be
/// a string literal and nothing else.
pub open spec fn include_target(operand: Option<SpannedView<OperandView>>) -> Option<Seq<char>> {
    match operand {
        Some(node) => if node.val.mode == OperandMode::Address && node.val.modifier is None {
            match node.val.value.val {
                ValueView::String(name) => Some(name),
                _ => None,
            }
        } else {
            None
        },
        None => None,
    }
}

/// The error for an operand of `inl` that is no plain string literal: it
/// points at the operand or, where there is none, at the mnemonic.
pub open spec fn include_operand_error(
    env: ParseEnv,
    mnemonic: Range<usize>,
    operand: Option<SpannedView<OperandView>>,
) -> AssemblerErrorView {
    let span = match operand {
        Some(node) => node.span,
        None => mnemonic,
    };
    AssemblerErrorView {
        message: "Invalid operand to `inl`"@,
        labels: seq![
            label_at(
                span.start as int,
                span.end as int,
                env.file,
                Some("Expected an unmodified string literal"@),
            ),
        ],
        help: None,
    }
}

/// The instruction that stands for an included file.
pub open spec fn include_node(
    name: Seq<char>,
    mnemonic: Range<usize>,
    operand: Range<usize>,
) -> SpannedView<InstructionView> {
    SpannedView {
        val: InstructionView {
            mnemonic: SpannedView { val: Mnemonic::Inl, span: mnemonic },
            operand: Some(
                operand_node(
                    OperandMode::Immediate,
                    None,
                    SpannedView { val: ValueView::Include(name), span: operand },
                    operand.start,
                    operand.end,
                ),
            ),
        },
        span: mnemonic.start..operand.end,
    }
}

/// The directive `inl`, whose mnemonic is at `mnemonic` and whose operand was
/// parsed up to `pos`. The errors of the included file are kept apart: they
/// do not end the line.
pub open spec fn inl_spec(
    env: ParseEnv,
    mnemonic: Range<usize>,
    operand: Option<SpannedView<OperandView>>,
    pos: int,
) -> InstructionParse
    decreases include_room(env), 1nat, 0nat,
{
    match include_target(operand) {
        Some(name) => if has_source_extension(name) {
            let span = operand->0.span;
            let report = include_spec(env, name, mnemonic.start..span.end);
            match report.result {
                Ok(program) => InstructionParse {
                    result: Ok(Some(include_node(name, mnemonic, span))),
                    included: program,
                    errors: Seq::empty(),
                    missing: report.missing,
                    pos,
                },
                Err(errors) => InstructionParse {
                    result: Ok(None),
                    included: Seq::empty(),
                    errors,
                    missing: report.missing,
                    pos,
                },
            }
        } else {
            plain(
                failed(
                    syntax_error(
                        env,
                        "Could not include \""@ + name + "\""@,
                        operand->0.span,
                        Some("File extension is expected to be `65a`"@),
                    ),
                    pos,
                ),
            )
        },
        None => plain(failed(include_operand_error(env, mnemonic, operand), pos)),
    }
}

/// The optional instruction of a line: a mnemonic and, unless the mnemonic
/// takes none, its optional operand.
pub open spec fn instruction_spec(
    env: ParseEnv,
    pos: int,
    parent: Option<Seq<char>>,
) -> InstructionParse
    decreases include_room(env), 2nat, 0nat,
{
    match mnemonic_at(env.tokens, pos) {
        None => plain(nothing(pos)),
        Some(mnemonic) => {
            let span = span_at(env.tokens, pos);
            if mnemonic.spec_is_implied() {
                plain(
                    found(
                        SpannedView {
                            val: InstructionView {
                                mnemonic: SpannedView { val: mnemonic, span },
                                operand: None,
                            },
                            span,
                        },
                        pos + 1,
                    ),
                )
            } else {
                let operand = operand_spec(env, pos + 1, parent);
                match operand.result {
                    Err(error) => plain(failed(error, operand.pos)),
                    Ok(node) => if mnemonic == Mnemonic::Inl {
                        inl_spec(env, span, node, operand.pos)
                    } else {
                        plain(
                            found(
                                SpannedView {
                                    val: InstructionView {
                                        mnemonic: SpannedView { val: mnemonic, span },
                                        operand: node,
                                    },
                                    span: span.start..(match node {
                                        Some(operand) => operand.span.end,
                                        None => span.end,
                                    }),
                                },
                                operand.pos,
                            ),
                        )
                    },
                }
            }
        },
    }
}

/// A line as it is parsed.
pub struct LineParse {
    /// The actions of the line.
    pub actions: Seq<ActionView>,
    /// The error in the line.
    pub error: Option<AssemblerErrorView>,
    /// The errors in the file that the line includes.
    pub errors: Seq<AssemblerErrorView>,
    /// The files that were not among the sources.
    pub missing: Seq<Seq<char>>,
    /// Where the next line starts.
    pub pos: int,
    /// The parent of the sublabels that follow.
    pub parent: Option<Seq<char>>,
}

/// The name of the file that an instruction stands for, if it stands for
/// one.
pub open spec fn included_name(instruction: SpannedView<InstructionView>) -> Option<Seq<char>> {
    match instruction.val.operand {
        Some(operand) => match operand.val.value.val {
            ValueView::Include(name) => Some(name),
            _ => None,
        },
        None => None,
    }
}

/// The actions of a line after its label: its instruction, if it has one,
/// and its end, which lies where the comment ends or, without one, where
/// the instruction or else the label ends. An included file follows the
/// end of its line between two markers.
pub open spec fn line_tail(
    tokens: Seq<Scan>,
    pos: int,
    label_end: usize,
    node: Option<SpannedView<InstructionView>>,
    included: Seq<ActionView>,
) -> Seq<ActionView> {
    let skipped = line_end_offset(tokens, pos);
    let end: usize = if skipped != 0 {
        skipped
    } else {
        match node {
            Some(instruction) => instruction.span.end,
            None => label_end,
        }
    };
    match node {
        Some(found) => match included_name(found) {
            Some(name) => seq![ActionView::LineEnd(end), ActionView::PushInclude(name)] + included
                + seq![ActionView::PopInclude],
            None => seq![ActionView::Instruction(found), ActionView::LineEnd(end)],
        },
        None => seq![ActionView::LineEnd(end)],
    }
}

/// A line: an optional label, an optional instruction, and a comment up to
/// the end of the line. After an error the rest of the line is skipped.
pub open spec fn line_spec(env: ParseEnv, pos: int, parent: Option<Seq<char>>) -> LineParse
    decreases include_room(env), 3nat, 0nat,
{
    let label = label_spec(env, pos);
    let parent = parent_after(parent, label);
    match label.result {
        Err(error) => LineParse {
            actions: Seq::empty(),
            error: Some(error),
            errors: Seq::empty(),
            missing: Seq::empty(),
            pos: line_end_pos(env.tokens, label.pos),
            parent,
        },
        Ok(label_node) => {
            let labelled: Seq<ActionView> = match label_node {
                Some(node) => seq![ActionView::Label(node)],
                None => Seq::empty(),
            };
            let label_end: usize = match label_node {
                Some(node) => node.span.end,
                None => 0,
            };
            let instruction = instruction_spec(env, label.pos, parent);
            match instruction.result {
                Err(error) => LineParse {
                    actions: labelled,
                    error: Some(error),
                    errors: instruction.errors,
                    missing: instruction.missing,
                    pos: line_end_pos(env.tokens, instruction.pos),
                    parent,
                },
                Ok(node) => LineParse {
                    actions: labelled + line_tail(
                        env.tokens,
                        instruction.pos,
                        label_end,
                        node,
                        instruction.included,
                    ),
                    error: None,
                    errors: instruction.errors,
                    missing: instruction.missing,
                    pos: line_end_pos(env.tokens, instruction.pos),
                    parent,
                },
            }
        },
    }
}

/// What a parser has gathered.
pub struct Gathered {
    pub program: Seq<ActionView>,
    pub errors: Seq<AssemblerErrorView>,
    pub missing: Seq<Seq<char>>,
}

/// The program with the start of the next line marked: the first line
/// starts at the start of the source, and a line that follows the end of a
/// line starts where that one ended.
pub open spec fn start_line(program: Seq<ActionView>) -> Seq<ActionView> {
    if program.len() == 0 {
        seq![ActionView::LineStart(0)]
    } else {
        match program.last() {
            ActionView::LineEnd(end) => program.push(ActionView::LineStart(end)),
            _ => program,
        }
    }
}

/// The lines from `pos` on, added to what was gathered.
pub open spec fn lines_spec(
    env: ParseEnv,
    pos: int,
    parent: Option<Seq<char>>,
    gathered: Gathered,
) -> Gathered
    decreases include_room(env), 4nat, env.tokens.len() - pos,
{
    if pos < 0 || pos >= env.tokens.len() {
        gathered
    } else {
        let line = line_spec(env, pos, parent);
        let next = Gathered {
            program: start_line(gathered.program) + line.actions,
            errors: gathered.errors + line.errors + match line.error {
                Some(error) => seq![error],
                None => Seq::empty(),
            },
            missing: gathered.missing + line.missing,
        };
        if pos < line.pos <= env.tokens.len() {
            lines_spec(env, line.pos, line.parent, next)
        } else {
            next
        }
    }
}

/// The report on what was gathered: the program if there is no error.
pub open spec fn report_of(gathered: Gathered) -> ParseReportView {
    ParseReportView {
        result: if gathered.errors.len() > 0 {
            Err(gathered.errors)
        } else {
            Ok(gathered.program)
        },
        missing: gathered.missing,
    }
}

/// What parsing a whole file gives.
pub open spec fn program_spec(env: ParseEnv) -> ParseReportView
    decreases include_room(env), 5nat, 0nat,
{
    report_of(
        lines_spec(
            env,
            0,
            None,
            Gathered { program: Seq::empty(), errors: Seq::empty(), missing: Seq::empty() },
        ),
    )
}

/// Every line takes at least one token.
pub proof fn lemma_line_progress(env: ParseEnv, pos: int, parent: Option<Seq<char>>)
    requires
        0 <= pos < env.tokens.len(),
    ensures
        pos < line_spec(env, pos, parent).pos <= env.tokens.len(),
{
    let label = label_spec(env, pos);
    assert(pos <= label.pos <= env.tokens.len());
    let instruction = instruction_spec(env, label.pos, parent_after(parent, label));
    assert(label.pos <= instruction.pos <= env.tokens.len()) by {
        lemma_operand_bounds(env, label.pos + 1, parent_after(parent, label));
    }
    lemma_line_end_pos(env.tokens, label.pos);
    lemma_line_end_pos(env.tokens, instruction.pos);
}

/// A value ends within the tokens.
pub proof fn lemma_value_bounds(env: ParseEnv, pos: int, parent: Option<Seq<char>>)
    requires
        0 <= pos <= env.tokens.len(),
    ensures
        pos <= value_spec(env, pos, parent).pos <= env.tokens.len(),
        pos <= modified_value_spec(env, pos, parent).pos <= env.tokens.len(),
        forall|prefix: Range<usize>|
            pos <= (#[trigger] expect_value_spec(env, pos, parent, prefix)).pos
                <= env.tokens.len(),
{
    if pos < env.tokens.len() {
        assert forall|prefix: Range<usize>|
            pos + 1 <= (#[trigger] expect_value_spec(env, pos + 1, parent, prefix)).pos
                <= env.tokens.len() by {}
    }
}

/// An operand ends within the tokens.
pub proof fn lemma_operand_bounds(env: ParseEnv, pos: int, parent: Option<Seq<char>>)
    requires
        0 <= pos,
    ensures
        pos <= env.tokens.len() ==> pos <= operand_spec(env, pos, parent).pos <= env.tokens.len(),
{
    if pos < env.tokens.len() {
        lemma_value_bounds(env, pos, parent);
        lemma_value_bounds(env, pos + 1, parent);
    }
}

} // verus!
