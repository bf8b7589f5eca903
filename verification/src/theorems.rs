//! Theorems about the assembler as a whole: what the tokenizer, the parser
//! and the code generator guarantee together.

use crate::apple::{apple_encoding, encode_from, AppleCharacterMode};
use crate::binary::resolve_all;
use crate::ast::{
    address_mode_of, ActionView, AddressMode, IncludeView, InstructionView, LabelView,
    LocationView, Mnemonic, Modifier,
    OperandMode, OperandView, SpannedView, ValueView, Visibility,
};
use crate::error::AssemblerErrorView;
use crate::grammar::{
    has_source_extension, include_room, include_spec, include_target, included_env, included_name,
    inl_spec, instruction_spec, kind_at, label_spec, lemma_include_shrinks, lemma_stack_index, line_end_offset, line_spec,
    line_tail, lines_spec, mnemonic_at, operand_spec, parent_after, program_spec,
    recursive_include_error, span_at, stack_has, stack_index, start_line, sublabel_reference_spec,
    text_at, Gathered, ParseEnv,
};
use crate::lexer::{lemma_next_token_progress, next_token, tokens_from, Scan, TokenKind};
use crate::opcodes::opcode_of;
use crate::section::{MEMORY_SIZE, ReferenceView, SectionLabelView, SectionView};
use crate::semantics::{
    narrowed,
    action_step, at_directive, cpu_spec, dfb_spec, dfw_spec, drop_label, emit, equ_spec, full_name,
    implied_spec, initial_state, instruction_step, is_whitespace, label_step, lemma_insert_bytes,
    lemma_section_index, macro_of, operand_width, org_spec, orphan_error, place_label, refer,
    resolve_operand_spec, run_from, sct_spec, section_index, set_origin, trimmed_end, word_bytes,
    ActualValueView, GeneratorView, MacroView,
};
use crate::sources::{lemma_source_index, source_index, SourceFileView, SourceTextView};
use std::ops::Range;
use vstd::prelude::*;

verus! {

/// A top label becomes the parent of the sublabels that follow.
pub proof fn lemma_top_label_becomes_parent(state: GeneratorView, label: SpannedView<LabelView>)
    requires
        label.val is Top,
    ensures
        label_step(state, label).1,
        label_step(state, label).0.last_parent_label is Some,
        label_step(state, label).0.last_parent_label->0.name.val == label.val->Top_0.name,
{
}

/// Only a top label changes the parent of the sublabels that follow: any
/// other action leaves it as it is.
pub proof fn lemma_parent_stays(state: GeneratorView, program: Seq<ActionView>, index: int)
    requires
        0 <= index < program.len(),
        !(program[index] matches ActionView::Label(label) && label.val is Top),
    ensures
        action_step(state, program, index).0.last_parent_label == state.last_parent_label,
{
}

/// A sublabel under the parent `T`, bare as `.S` or with its parent stated
/// as `T.S`, is placed in the current section at its origin under the name
/// `T.S`, and no error is added.
pub proof fn lemma_sublabel_is_named_after_parent(
    state: GeneratorView,
    label: SpannedView<LabelView>,
)
    requires
        state.wf(),
        state.last_parent_label is Some,
        label.val matches LabelView::Sub(stated, _) && (stated is None || stated->0.val
            == state.last_parent_label->0.name.val),
    ensures
        label_step(state, label).1,
        label_step(state, label).0.errors == state.errors,
        label_step(state, label).0.section().labels == state.section().labels.push(
            SectionLabelView {
                name: state.last_parent_label->0.name.val + "."@ + label.val->Sub_1.val,
                visibility: Visibility::Object,
                offset: state.section().origin,
            },
        ),
{
}

/// A sublabel that no top label comes before is an error, and no label is
/// placed.
pub proof fn lemma_sublabel_without_parent_is_an_error(
    state: GeneratorView,
    label: SpannedView<LabelView>,
)
    requires
        state.wf(),
        state.last_parent_label is None,
        label.val is Sub,
    ensures
        !label_step(state, label).1,
        label_step(state, label).0.errors == state.errors.push(
            orphan_error(state, label.val->Sub_1),
        ),
        label_step(state, label).0.object == state.object,
{
}

/// A reference `.S` under the parent `T` refers to the name under which the
/// sublabel `S` of `T` is placed; without a parent it is an error.
pub proof fn lemma_sublabel_reference(env: ParseEnv, pos: int, parent: Option<Seq<char>>)
    requires
        0 <= pos,
        pos + 1 < env.tokens.len(),
        kind_at(env.tokens, pos + 1) == Some(TokenKind::Ident),
    ensures
        match parent {
            Some(top) => sublabel_reference_spec(env, pos, parent).result matches Ok(Some(node))
                && node.val == ValueView::Reference(
                full_name(top, text_at(env.tokens, pos + 1)),
            ),
            None => sublabel_reference_spec(env, pos, parent).result is Err,
        },
{
}

/// A mnemonic that takes no operand is an instruction by itself: whatever
/// follows it on its line is a comment.
pub proof fn lemma_implied_takes_no_operand(env: ParseEnv, pos: int, parent: Option<Seq<char>>)
    requires
        mnemonic_at(env.tokens, pos) matches Some(mnemonic) && mnemonic.spec_is_implied(),
    ensures
        instruction_spec(env, pos, parent).pos == pos + 1,
        instruction_spec(env, pos, parent).result matches Ok(Some(node)) && node.val.operand
            is None && node.span == span_at(env.tokens, pos),
{
}

/// An address, indexed or not, is in the zero page exactly when its value
/// is one byte wide.
pub proof fn lemma_zero_page_iff_byte_wide(mode: OperandMode, byte_wide: bool)
    requires
        mode == OperandMode::Address || mode == OperandMode::XIndexed || mode
            == OperandMode::YIndexed,
    ensures
        byte_wide <==> matches!(
            address_mode_of(mode, byte_wide, false),
            AddressMode::Zeropage | AddressMode::ZeropageX | AddressMode::ZeropageY
        ),
        !byte_wide <==> matches!(
            address_mode_of(mode, byte_wide, false),
            AddressMode::Absolute | AddressMode::AbsoluteX | AddressMode::AbsoluteY
        ),
{
}

/// A name that is a macro of a byte stands for that byte, and an address
/// that it is the value of is in the zero page, as if the byte itself had
/// been written.
pub proof fn lemma_byte_macro_narrows(
    state: GeneratorView,
    operand: SpannedView<OperandView>,
    branch: bool,
    byte: u8,
)
    requires
        operand.val.value.val matches ValueView::Reference(name) && macro_of(
            state.macros,
            name,
            0,
        ) matches Some(MacroView::Byte(value, _)) && value == byte,
        operand.val.mode == OperandMode::Address || operand.val.mode == OperandMode::XIndexed
            || operand.val.mode == OperandMode::YIndexed || operand.val.mode
            == OperandMode::Immediate,
    ensures
        resolve_operand_spec(state, operand, branch).0 == ActualValueView::Byte(byte),
        resolve_operand_spec(state, operand, branch).1 == address_mode_of(
            operand.val.mode,
            true,
            branch,
        ),
{
}

/// A macro of a word under a modifier stands for one byte of the word, and
/// narrows the address like a byte; without a modifier it stands for the
/// word.
pub proof fn lemma_word_macro(
    state: GeneratorView,
    operand: SpannedView<OperandView>,
    word: u16,
)
    requires
        operand.val.value.val matches ValueView::Reference(name) && macro_of(
            state.macros,
            name,
            0,
        ) matches Some(MacroView::Word(value, _)) && value == word,
        operand.val.mode == OperandMode::Address,
    ensures
        match operand.val.modifier {
            Some(modifier) => resolve_operand_spec(state, operand, false) == (
                ActualValueView::Byte(
                    match modifier.val {
                        Modifier::HighByte => (word / 256) as u8,
                        Modifier::LowByte => (word % 256) as u8,
                    },
                ),
                AddressMode::Zeropage,
            ),
            None => resolve_operand_spec(state, operand, false) == (
                ActualValueView::Word(word),
                AddressMode::Absolute,
            ),
        },
{
}

/// A file of which an inclusion is under way cannot be included: the
/// inclusion is refused with the error for a recursive inclusion, whatever
/// the sources hold, and no file is asked for.
pub proof fn lemma_recursive_inclusion_is_refused(
    env: ParseEnv,
    name: Seq<char>,
    span: Range<usize>,
)
    requires
        stack_has(env.stack, name),
    ensures
        stack_index(env.stack, name, 0) is Some,
        include_spec(env, name, span).result == Err::<Seq<ActionView>, _>(
            seq![recursive_include_error(env, name, span, stack_index(env.stack, name, 0)->0)],
        ),
        include_spec(env, name, span).missing.len() == 0,
{
    lemma_stack_index(env.stack, name, 0);
    if stack_index(env.stack, name, 0) is None {
        let k = choose|k: int| 0 <= k < env.stack.len() && (#[trigger] env.stack[k]).included
            == name;
        assert(env.stack[k].included != name);
    }
}

/// A file whose name does not end in `.65a` is not included and not asked
/// for: the directive is an error that does not depend on the sources.
pub proof fn lemma_wrong_extension_reads_nothing(
    env: ParseEnv,
    other_sources: Seq<SourceFileView>,
    mnemonic: Range<usize>,
    operand: Option<SpannedView<OperandView>>,
    pos: int,
)
    requires
        include_target(operand) matches Some(name) && !has_source_extension(name),
    ensures
        inl_spec(env, mnemonic, operand, pos).result is Err,
        inl_spec(env, mnemonic, operand, pos).missing.len() == 0,
        inl_spec(env, mnemonic, operand, pos) == inl_spec(
            ParseEnv { sources: other_sources, ..env },
            mnemonic,
            operand,
            pos,
        ),
{
}

/// Setting the origin changes no byte of the memory, and keeps the image
/// between the lowest and the highest origin: the new origin lies within
/// it.
pub proof fn lemma_origin_keeps_memory(section: SectionView, origin: usize)
    requires
        section.wf(),
        origin <= MEMORY_SIZE,
    ensures
        set_origin(section, origin).wf(),
        section.tight() ==> set_origin(section, origin).tight(),
        set_origin(section, origin).data == section.data,
        set_origin(section, origin).image_start() <= origin <= set_origin(
            section,
            origin,
        ).highest_origin,
        set_origin(section, origin).image_start() <= section.image_start() || section.lowest_origin
            is None,
        set_origin(section, origin).highest_origin >= section.highest_origin,
{
}

/// The image of a section holds all of its code: every byte of the memory
/// outside of the image is zero.
pub proof fn lemma_image_holds_all_code(section: SectionView, address: int)
    requires
        section.wf(),
        section.tight(),
        0 <= address < MEMORY_SIZE,
        section.data[address] != 0,
    ensures
        section.image_start() <= address < section.highest_origin,
        section.image()[address - section.image_start()] == section.data[address],
{
}

/// A new section is all zero: memory that no code is put into stays zero.
pub proof fn lemma_new_section_is_zero(name: Seq<char>, address: int)
    requires
        0 <= address < MEMORY_SIZE,
    ensures
        SectionView::empty(name).wf(),
        SectionView::empty(name).data[address] == 0,
{
}

/// The tokens of a source lie in it one after the other: none is empty,
/// none reaches past the end, and none starts before the one before it
/// ends.
pub proof fn lemma_tokens_in_order(source: Seq<u8>, from: int, first: int, second: int)
    requires
        0 <= from <= source.len(),
        0 <= first < second < tokens_from(source, from).len(),
    ensures
        from <= tokens_from(source, from)[first].start,
        tokens_from(source, from)[first].start < tokens_from(source, from)[first].end,
        tokens_from(source, from)[first].end <= tokens_from(source, from)[second].start,
        tokens_from(source, from)[second].end <= source.len(),
    decreases source.len() - from,
{
    lemma_next_token_progress(source, from);
    let scan = next_token(source, from)->0;
    let rest = tokens_from(source, scan.end);
    assert(tokens_from(source, from) =~= seq![scan] + rest);
    if first == 0 {
        lemma_token_bounds(source, scan.end, second - 1);
    } else {
        lemma_tokens_in_order(source, scan.end, first - 1, second - 1);
    }
}

/// Every token lies within the source, after the place from which the
/// tokens are read.
pub proof fn lemma_token_bounds(source: Seq<u8>, from: int, index: int)
    requires
        0 <= from <= source.len(),
        0 <= index < tokens_from(source, from).len(),
    ensures
        from <= tokens_from(source, from)[index].start < tokens_from(source, from)[index].end
            <= source.len(),
    decreases source.len() - from,
{
    lemma_next_token_progress(source, from);
    let scan = next_token(source, from)->0;
    assert(tokens_from(source, from) =~= seq![scan] + tokens_from(source, scan.end));
    if index > 0 {
        lemma_token_bounds(source, scan.end, index - 1);
    }
}

/// A macro that is added later does not change what a name stands for:
/// the macro that was defined first counts.
pub proof fn lemma_first_macro_counts(
    macros: Seq<(Seq<char>, MacroView)>,
    added: (Seq<char>, MacroView),
    name: Seq<char>,
    from: int,
)
    requires
        0 <= from,
        macro_of(macros, name, from) is Some,
    ensures
        macro_of(macros.push(added), name, from) == macro_of(macros, name, from),
    decreases macros.len() - from,
{
    if from < macros.len() && macros[from].0 != name {
        assert(macros.push(added)[from] == macros[from]);
        lemma_first_macro_counts(macros, added, name, from + 1);
    }
}

/// A macro is never changed once it is defined: whatever an action does,
/// every name that stood for a macro stands for the same macro after it.
pub proof fn lemma_macros_are_kept(
    state: GeneratorView,
    program: Seq<ActionView>,
    index: int,
    name: Seq<char>,
)
    requires
        0 <= index < program.len(),
        macro_of(state.macros, name, 0) is Some,
    ensures
        macro_of(action_step(state, program, index).0.macros, name, 0) == macro_of(
            state.macros,
            name,
            0,
        ),
{
    let after = action_step(state, program, index).0;
    if after.macros != state.macros {
        let added = after.macros.last();
        assert(after.macros =~= state.macros.push(added));
        lemma_first_macro_counts(state.macros, added, name, 0);
    }
}

/// `equ` on a name that is a macro already is an error, and defines
/// nothing.
pub proof fn lemma_macro_is_defined_once(
    state: GeneratorView,
    value: ActualValueView,
    span: Range<usize>,
)
    requires
        state.macro_valid,
        state.section().labels.len() > 0,
        macro_of(state.macros, state.section().labels.last().name, 0) is Some,
    ensures
        equ_spec(state, value, span).result is Err,
        equ_spec(state, value, span).state.macros == state.macros,
{
}

/// How deep in included files a program ends that starts `depth` deep; none
/// where a file ends that did not start.
pub open spec fn nesting(actions: Seq<ActionView>, depth: int) -> Option<int>
    decreases actions.len(),
{
    if actions.len() == 0 {
        Some(depth)
    } else {
        match nesting(actions.drop_last(), depth) {
            None => None,
            Some(before) => match actions.last() {
                ActionView::PushInclude(_) => Some(before + 1),
                ActionView::PopInclude => if before > 0 {
                    Some(before - 1)
                } else {
                    None
                },
                _ => Some(before),
            },
        }
    }
}

/// The markers of included files are balanced: every start has its end
/// after it, and every end its start before it.
pub open spec fn balanced(actions: Seq<ActionView>) -> bool {
    nesting(actions, 0) == Some(0int)
}

proof fn lemma_nesting_concat(first: Seq<ActionView>, second: Seq<ActionView>, depth: int)
    ensures
        nesting(first + second, depth) == match nesting(first, depth) {
            Some(middle) => nesting(second, middle),
            None => None,
        },
    decreases second.len(),
{
    if second.len() == 0 {
        assert(first + second =~= first);
    } else {
        assert((first + second).drop_last() =~= first + second.drop_last());
        assert((first + second).last() == second.last());
        lemma_nesting_concat(first, second.drop_last(), depth);
    }
}

proof fn lemma_nesting_deeper(actions: Seq<ActionView>, depth: int)
    requires
        depth >= 0,
    ensures
        nesting(actions, 0) matches Some(end) ==> nesting(actions, depth) == Some(end + depth),
    decreases actions.len(),
{
    if actions.len() > 0 {
        lemma_nesting_deeper(actions.drop_last(), depth);
        lemma_nesting_not_negative(actions.drop_last(), 0);
    }
}

proof fn lemma_nesting_not_negative(actions: Seq<ActionView>, depth: int)
    requires
        depth >= 0,
    ensures
        nesting(actions, depth) matches Some(end) ==> end >= 0,
    decreases actions.len(),
{
    if actions.len() > 0 {
        lemma_nesting_not_negative(actions.drop_last(), depth);
    }
}

/// One action after a program.
proof fn lemma_nesting_push(actions: Seq<ActionView>, action: ActionView, depth: int)
    ensures
        nesting(actions.push(action), depth) == match nesting(actions, depth) {
            None => None,
            Some(before) => match action {
                ActionView::PushInclude(_) => Some(before + 1),
                ActionView::PopInclude => if before > 0 {
                    Some(before - 1)
                } else {
                    None
                },
                _ => Some(before),
            },
        },
{
    assert(actions.push(action).drop_last() =~= actions);
}

/// Two balanced programs one after the other are balanced.
pub proof fn lemma_balanced_concat(first: Seq<ActionView>, second: Seq<ActionView>)
    requires
        balanced(first),
        balanced(second),
    ensures
        balanced(first + second),
{
    lemma_nesting_concat(first, second, 0);
}

/// A balanced program between the markers of an included file is balanced.
proof fn lemma_balanced_inclusion(end: usize, name: Seq<char>, inner: Seq<ActionView>)
    requires
        balanced(inner),
    ensures
        balanced(
            seq![ActionView::LineEnd(end), ActionView::PushInclude(name)] + inner + seq![
                ActionView::PopInclude,
            ],
        ),
{
    let none = Seq::<ActionView>::empty();
    let head = seq![ActionView::LineEnd(end), ActionView::PushInclude(name)];
    lemma_nesting_push(none, ActionView::LineEnd(end), 0);
    lemma_nesting_push(none.push(ActionView::LineEnd(end)), ActionView::PushInclude(name), 0);
    assert(head =~= none.push(ActionView::LineEnd(end)).push(ActionView::PushInclude(name)));
    assert(nesting(head, 0) == Some(1int));
    lemma_nesting_concat(head, inner, 0);
    lemma_nesting_deeper(inner, 1);
    assert(nesting(head + inner, 0) == Some(1int));
    lemma_nesting_push(head + inner, ActionView::PopInclude, 0);
    assert(head + inner + seq![ActionView::PopInclude] =~= (head + inner).push(
        ActionView::PopInclude,
    ));
}

/// The rest of a line after its label is balanced.
proof fn lemma_tail_is_balanced(
    tokens: Seq<Scan>,
    pos: int,
    label_end: usize,
    node: Option<SpannedView<InstructionView>>,
    included: Seq<ActionView>,
)
    requires
        balanced(included),
    ensures
        balanced(line_tail(tokens, pos, label_end, node, included)),
{
    let none = Seq::<ActionView>::empty();
    let skipped = line_end_offset(tokens, pos);
    let end: usize = if skipped != 0 {
        skipped
    } else {
        match node {
            Some(found) => found.span.end,
            None => label_end,
        }
    };
    match node {
        Some(found) => match included_name(found) {
            Some(name) => {
                lemma_balanced_inclusion(end, name, included);
            },
            None => {
                lemma_nesting_push(none, ActionView::Instruction(found), 0);
                lemma_nesting_push(
                    none.push(ActionView::Instruction(found)),
                    ActionView::LineEnd(end),
                    0,
                );
                assert(seq![ActionView::Instruction(found), ActionView::LineEnd(end)] =~= none.push(
                    ActionView::Instruction(found),
                ).push(ActionView::LineEnd(end)));
            },
        },
        None => {
            lemma_nesting_push(none, ActionView::LineEnd(end), 0);
            assert(seq![ActionView::LineEnd(end)] =~= none.push(ActionView::LineEnd(end)));
        },
    }
}

/// The program of an included file is balanced.
pub proof fn lemma_included_program_is_balanced(env: ParseEnv, name: Seq<char>, span: Range<usize>)
    ensures
        include_spec(env, name, span).result matches Ok(program) ==> balanced(program),
    decreases include_room(env), 0nat, 0nat,
{
    match stack_index(env.stack, name, 0) {
        Some(_) => {},
        None => match source_index(env.sources, name, 0) {
            None => {},
            Some(index) => match env.sources[index].contents {
                SourceTextView::Failed(_) => {},
                SourceTextView::Read(text) => {
                    if include_room(included_env(env, name, span, text)) < include_room(env) {
                        lemma_program_is_balanced(included_env(env, name, span, text));
                    }
                },
            },
        },
    }
}

proof fn lemma_inl_is_balanced(
    env: ParseEnv,
    mnemonic: Range<usize>,
    operand: Option<SpannedView<OperandView>>,
    pos: int,
)
    ensures
        balanced(inl_spec(env, mnemonic, operand, pos).included),
    decreases include_room(env), 1nat, 0nat,
{
    match include_target(operand) {
        Some(name) => {
            if has_source_extension(name) {
                lemma_included_program_is_balanced(
                    env,
                    name,
                    mnemonic.start..operand->0.span.end,
                );
            }
        },
        None => {},
    }
}

proof fn lemma_instruction_is_balanced(env: ParseEnv, pos: int, parent: Option<Seq<char>>)
    ensures
        balanced(instruction_spec(env, pos, parent).included),
    decreases include_room(env), 2nat, 0nat,
{
    match mnemonic_at(env.tokens, pos) {
        None => {},
        Some(mnemonic) => {
            if !mnemonic.spec_is_implied() {
                let operand = operand_spec(env, pos + 1, parent);
                if operand.result is Ok && mnemonic == Mnemonic::Inl {
                    lemma_inl_is_balanced(
                        env,
                        span_at(env.tokens, pos),
                        operand.result->Ok_0,
                        operand.pos,
                    );
                }
            }
        },
    }
}

/// The actions of a line are balanced: an included file stands between its
/// two markers.
pub proof fn lemma_line_is_balanced(env: ParseEnv, pos: int, parent: Option<Seq<char>>)
    ensures
        balanced(line_spec(env, pos, parent).actions),
    decreases include_room(env), 3nat, 0nat,
{
    let none = Seq::<ActionView>::empty();
    let label = label_spec(env, pos);
    let after = parent_after(parent, label);
    match label.result {
        Err(_) => {},
        Ok(label_node) => {
            let labelled: Seq<ActionView> = match label_node {
                Some(node) => seq![ActionView::Label(node)],
                None => Seq::empty(),
            };
            assert(balanced(labelled)) by {
                if label_node is Some {
                    lemma_nesting_push(none, ActionView::Label(label_node->0), 0);
                    assert(labelled =~= none.push(ActionView::Label(label_node->0)));
                }
            }
            let label_end: usize = match label_node {
                Some(node) => node.span.end,
                None => 0,
            };
            let instruction = instruction_spec(env, label.pos, after);
            lemma_instruction_is_balanced(env, label.pos, after);
            match instruction.result {
                Err(_) => {},
                Ok(node) => {
                    let tail = line_tail(
                        env.tokens,
                        instruction.pos,
                        label_end,
                        node,
                        instruction.included,
                    );
                    lemma_tail_is_balanced(
                        env.tokens,
                        instruction.pos,
                        label_end,
                        node,
                        instruction.included,
                    );
                    lemma_balanced_concat(labelled, tail);
                },
            }
        },
    }
}

proof fn lemma_lines_are_balanced(
    env: ParseEnv,
    pos: int,
    parent: Option<Seq<char>>,
    gathered: Gathered,
)
    requires
        balanced(gathered.program),
    ensures
        balanced(lines_spec(env, pos, parent, gathered).program),
    decreases include_room(env), 4nat, env.tokens.len() - pos,
{
    if 0 <= pos < env.tokens.len() {
        let line = line_spec(env, pos, parent);
        lemma_line_is_balanced(env, pos, parent);
        let started = start_line(gathered.program);
        assert(balanced(started)) by {
            if gathered.program.len() == 0 {
                lemma_nesting_push(gathered.program, ActionView::LineStart(0), 0);
                assert(started =~= gathered.program.push(ActionView::LineStart(0)));
            } else if gathered.program.last() is LineEnd {
                lemma_nesting_push(
                    gathered.program,
                    ActionView::LineStart(gathered.program.last()->LineEnd_0),
                    0,
                );
            }
        }
        lemma_balanced_concat(started, line.actions);
        let next = Gathered {
            program: started + line.actions,
            errors: gathered.errors + line.errors + match line.error {
                Some(error) => seq![error],
                None => Seq::empty(),
            },
            missing: gathered.missing + line.missing,
        };
        if pos < line.pos <= env.tokens.len() {
            lemma_lines_are_balanced(env, line.pos, line.parent, next);
        }
    }
}

/// The program that the parser makes of a file is balanced: the actions of
/// every included file stand between the marker of its start and that of
/// its end, and no marker stands alone.
pub proof fn lemma_program_is_balanced(env: ParseEnv)
    ensures
        program_spec(env).result matches Ok(program) ==> balanced(program),
    decreases include_room(env), 5nat, 0nat,
{
    lemma_lines_are_balanced(
        env,
        0,
        None,
        Gathered { program: Seq::empty(), errors: Seq::empty(), missing: Seq::empty() },
    );
}

/// The text of a line of the listing is the start of what it was taken
/// from, does not end in whitespace, and is left as it is when it is
/// trimmed again.
pub proof fn lemma_trimmed_end(text: Seq<char>)
    ensures
        trimmed_end(text).len() <= text.len(),
        trimmed_end(text) == text.subrange(0, trimmed_end(text).len() as int),
        trimmed_end(text).len() > 0 ==> !is_whitespace(trimmed_end(text).last()),
        forall|i: int| trimmed_end(text).len() <= i < text.len() ==> is_whitespace(text[i]),
        trimmed_end(trimmed_end(text)) == trimmed_end(text),
    decreases text.len(),
{
    if text.len() > 0 && is_whitespace(text.last()) {
        lemma_trimmed_end(text.drop_last());
        let kept = trimmed_end(text).len() as int;
        assert(text.drop_last().subrange(0, kept) =~= text.subrange(0, kept));
        assert forall|i: int| kept <= i < text.len() implies is_whitespace(text[i]) by {
            if i < text.len() - 1 {
                assert(text.drop_last()[i] == text[i]);
            }
        }
    } else {
        assert(text.subrange(0, text.len() as int) =~= text);
    }
}

/// How many bytes of code an instruction put: those that it reports, and
/// none where it ended in an error.
pub open spec fn written(result: Result<usize, AssemblerErrorView>) -> int {
    match result {
        Ok(count) => count as int,
        Err(_) => 0,
    }
}

/// What the memory of a section holds at an address; zero where the state
/// has no such section yet.
pub open spec fn memory_at(state: GeneratorView, section: int, address: int) -> u8 {
    if 0 <= section < state.object.len() {
        state.object[section].data[address]
    } else {
        0
    }
}

/// From `before` to `after` the memory changed only in the `count` bytes at
/// the origin of the section that was current, a section that was added is
/// all zero, and the state stayed sound.
pub open spec fn wrote_within(before: GeneratorView, after: GeneratorView, count: int) -> bool {
    &&& after.wf()
    &&& after.object.len() >= before.object.len()
    &&& forall|section: int, address: int|
        0 <= section < after.object.len() && 0 <= address < MEMORY_SIZE
            && #[trigger] after.object[section].data[address] != memory_at(
            before,
            section,
            address,
        ) ==> section == before.current_section && before.section().origin <= address
            < before.section().origin + count
}

proof fn lemma_emit_wrote(state: GeneratorView, bytes: Seq<u8>)
    requires
        state.wf(),
        state.has_room(bytes.len() as int),
    ensures
        wrote_within(state, emit(state, bytes), bytes.len() as int),
        emit(state, bytes).current_section == state.current_section,
        emit(state, bytes).object.len() == state.object.len(),
        emit(state, bytes).section().origin == state.section().origin + bytes.len(),
        emit(state, bytes).section().image_start() <= state.section().origin,
        emit(state, bytes).section().references == state.section().references,
        emit(state, bytes).section().labels == state.section().labels,
        emit(state, bytes).line_section_start == state.line_section_start,
        emit(state, bytes).include_stack == state.include_stack,
{
    lemma_insert_bytes(state.section(), bytes);
    let after = emit(state, bytes);
    assert forall|i: int| 0 <= i < after.object.len() implies (#[trigger] after.object[i]).wf()
        && after.object[i].tight() by {
        assert(state.object[i].wf());
    }
}

proof fn lemma_refer_kept(state: GeneratorView, reference: ReferenceView)
    requires
        state.wf(),
        state.section().image_start() <= reference.offset,
        reference.offset + reference.width() <= state.section().highest_origin,
    ensures
        wrote_within(state, refer(state, reference), 0),
        refer(state, reference).section().origin == state.section().origin,
        refer(state, reference).current_section == state.current_section,
{
    let after = refer(state, reference);
    assert(state.section().wf());
    assert(state.section().tight());
    assert forall|i: int| 0 <= i < after.object.len() implies (#[trigger] after.object[i]).wf()
        && after.object[i].tight() by {
        assert(state.object[i].wf());
    }
}

proof fn lemma_place_label_kept(state: GeneratorView, label: SectionLabelView)
    requires
        state.wf(),
        label.offset <= MEMORY_SIZE,
    ensures
        wrote_within(state, place_label(state, label), 0),
{
    let after = place_label(state, label);
    assert(state.section().wf());
    assert(state.section().tight());
    assert forall|i: int| 0 <= i < after.object.len() implies (#[trigger] after.object[i]).wf()
        && after.object[i].tight() by {
        assert(state.object[i].wf());
    }
}

proof fn lemma_drop_label_kept(state: GeneratorView)
    requires
        state.wf(),
        state.section().labels.len() > 0,
    ensures
        wrote_within(state, drop_label(state), 0),
        drop_label(state).macros == state.macros,
{
    let after = drop_label(state);
    assert(state.section().wf());
    assert(state.section().tight());
    assert forall|i: int| 0 <= i < after.object.len() implies (#[trigger] after.object[i]).wf()
        && after.object[i].tight() by {
        assert(state.object[i].wf());
        if i == state.current_section {
            assert forall|j: int| 0 <= j < after.object[i].labels.len() implies (
            #[trigger] after.object[i].labels[j]).offset <= MEMORY_SIZE by {
                assert(state.section().labels[j].offset <= MEMORY_SIZE);
            }
        }
    }
}

proof fn lemma_implied_wrote(state: GeneratorView, mnemonic: Mnemonic, span: Range<usize>)
    requires
        state.wf(),
    ensures
        wrote_within(
            state,
            implied_spec(state, mnemonic, span).state,
            written(implied_spec(state, mnemonic, span).result),
        ),
{
    match opcode_of(mnemonic, AddressMode::Implied) {
        Some(opcode) => {
            if state.has_room(1) {
                lemma_emit_wrote(state, seq![opcode]);
            }
        },
        None => {},
    }
}

proof fn lemma_dfb_wrote(state: GeneratorView, value: ActualValueView, span: Range<usize>)
    requires
        state.wf(),
        value matches ActualValueView::Reference(reference) ==> reference.offset
            == state.section().origin + 1,
    ensures
        wrote_within(
            state,
            dfb_spec(state, value, span).state,
            written(dfb_spec(state, value, span).result),
        ),
{
    match value {
        ActualValueView::Byte(byte) => {
            if state.has_room(1) {
                lemma_emit_wrote(state, seq![byte]);
            }
        },
        ActualValueView::String(string) => {
            if span.start + string.len() + 2 <= usize::MAX {
                match apple_encoding(string, state.location(span)) {
                    Ok(bytes) => {
                        if state.has_room(bytes.len() as int) {
                            lemma_emit_wrote(state, bytes);
                        }
                    },
                    Err(_) => {},
                }
            }
        },
        ActualValueView::Reference(reference) => {
            if reference.modifier is Some && state.has_room(1) {
                lemma_emit_wrote(state, seq![0u8]);
                lemma_refer_kept(emit(state, seq![0u8]), at_directive(reference));
            }
        },
        _ => {},
    }
}

proof fn lemma_dfw_wrote(state: GeneratorView, value: ActualValueView, span: Range<usize>)
    requires
        state.wf(),
        value matches ActualValueView::Reference(reference) ==> reference.offset
            == state.section().origin + 1 && !reference.branch,
    ensures
        wrote_within(
            state,
            dfw_spec(state, value, span).state,
            written(dfw_spec(state, value, span).result),
        ),
{
    match value {
        ActualValueView::Word(word) => {
            if state.has_room(2) {
                lemma_emit_wrote(state, word_bytes(word));
            }
        },
        ActualValueView::Reference(reference) => {
            if reference.modifier is None && state.has_room(2) {
                lemma_emit_wrote(state, seq![0u8, 0u8]);
                lemma_refer_kept(
                    emit(state, seq![0u8, 0u8]),
                    at_directive(reference),
                );
            }
        },
        _ => {},
    }
}

proof fn lemma_equ_wrote(state: GeneratorView, value: ActualValueView, span: Range<usize>)
    requires
        state.wf(),
    ensures
        wrote_within(
            state,
            equ_spec(state, value, span).state,
            written(equ_spec(state, value, span).result),
        ),
{
    if state.macro_valid && state.section().labels.len() > 0 {
        lemma_drop_label_kept(state);
    }
}

proof fn lemma_org_wrote(state: GeneratorView, value: ActualValueView, span: Range<usize>)
    requires
        state.wf(),
    ensures
        wrote_within(
            state,
            org_spec(state, value, span).state,
            written(org_spec(state, value, span).result),
        ),
{
    if state.binary {
        match value {
            ActualValueView::Word(word) => {
                let after = org_spec(state, value, span).state;
                lemma_origin_keeps_memory(state.section(), word as usize);
                assert(state.section().wf());
                assert(state.section().tight());
                assert forall|i: int| 0 <= i < after.object.len() implies (
                #[trigger] after.object[i]).wf() && after.object[i].tight() by {
                    assert(state.object[i].wf());
                }
            },
            _ => {},
        }
    }
}

proof fn lemma_sct_wrote(state: GeneratorView, value: ActualValueView, span: Range<usize>)
    requires
        state.wf(),
    ensures
        wrote_within(
            state,
            sct_spec(state, value, span).state,
            written(sct_spec(state, value, span).result),
        ),
{
    if !state.binary {
        match value {
            ActualValueView::String(name) => {
                let after = sct_spec(state, value, span).state;
                lemma_section_index(state.object, name, 0);
                assert forall|i: int| 0 <= i < after.object.len() implies (
                #[trigger] after.object[i]).wf() && after.object[i].tight() by {
                    if i < state.object.len() {
                        assert(state.object[i].wf());
                        assert(state.object[i].tight());
                    }
                }
            },
            _ => {},
        }
    }
}

proof fn lemma_cpu_wrote(
    state: GeneratorView,
    mnemonic: Mnemonic,
    mode: AddressMode,
    value: ActualValueView,
    span: Range<usize>,
)
    requires
        state.wf(),
        value matches ActualValueView::Reference(reference) ==> reference.offset
            == state.section().origin + 1 && reference.branch == mnemonic.spec_is_branch(),
    ensures
        wrote_within(
            state,
            cpu_spec(state, mnemonic, mode, value, span).state,
            written(cpu_spec(state, mnemonic, mode, value, span).result),
        ),
{
    match opcode_of(mnemonic, mode) {
        None => {},
        Some(opcode) => {
            if state.has_room(
                1 + operand_width(value, mnemonic.spec_is_branch()),
            ) {
                lemma_emit_wrote(state, seq![opcode]);
                let coded = emit(state, seq![opcode]);
                match value {
                    ActualValueView::Byte(byte) => {
                        lemma_emit_wrote(coded, seq![byte]);
                    },
                    ActualValueView::Word(word) => {
                        lemma_emit_wrote(coded, word_bytes(word));
                    },
                    ActualValueView::Reference(reference) => {
                        if reference.modifier is Some || mnemonic.spec_is_branch() {
                            lemma_emit_wrote(coded, seq![0u8]);
                            lemma_refer_kept(emit(coded, seq![0u8]), reference);
                        } else {
                            lemma_emit_wrote(coded, seq![0u8, 0u8]);
                            lemma_refer_kept(emit(coded, seq![0u8, 0u8]), reference);
                        }
                    },
                    _ => {},
                }
            }
        },
    }
}

/// Whatever an instruction does, it changes no byte of the memory but
/// those that it reports to have put at the origin of the current section,
/// and it leaves the state sound.
pub proof fn lemma_instruction_wrote(
    state: GeneratorView,
    instruction: SpannedView<InstructionView>,
)
    requires
        state.wf(),
    ensures
        wrote_within(
            state,
            instruction_step(state, instruction).state,
            written(instruction_step(state, instruction).result),
        ),
{
    let mnemonic = instruction.val.mnemonic.val;
    match instruction.val.operand {
        None => {
            lemma_implied_wrote(state, mnemonic, instruction.span);
        },
        Some(operand) => {
            let resolved = resolve_operand_spec(state, operand, mnemonic.spec_is_branch());
            match mnemonic {
                Mnemonic::Dfb => {
                    lemma_dfb_wrote(state, resolved.0, operand.span);
                },
                Mnemonic::Dfw => {
                    lemma_dfw_wrote(state, resolved.0, operand.span);
                },
                Mnemonic::Equ => {
                    lemma_equ_wrote(state, resolved.0, instruction.span);
                },
                Mnemonic::Org => {
                    lemma_org_wrote(state, resolved.0, instruction.span);
                },
                Mnemonic::Sct => {
                    lemma_sct_wrote(state, resolved.0, instruction.span);
                },
                _ => {
                    lemma_cpu_wrote(state, mnemonic, resolved.1, resolved.0, operand.span);
                },
            }
        },
    }
}

/// How many bytes of code the action at `index` may put.
pub open spec fn step_written(state: GeneratorView, program: Seq<ActionView>, index: int) -> int {
    match program[index] {
        ActionView::Instruction(instruction) => written(
            instruction_step(state, instruction).result,
        ),
        _ => 0,
    }
}

/// Whatever an action does, it changes no byte of the memory but those
/// that an instruction puts at the origin of the current section, and it
/// leaves the state sound.
pub proof fn lemma_action_wrote(state: GeneratorView, program: Seq<ActionView>, index: int)
    requires
        state.wf(),
        0 <= index < program.len(),
    ensures
        wrote_within(
            state,
            action_step(state, program, index).0,
            step_written(state, program, index),
        ),
{
    match program[index] {
        ActionView::Label(label) => {
            match label.val {
                LabelView::Top(top) => {
                    let marked = GeneratorView {
                        macro_valid: true,
                        last_parent_label: label_step(state, label).0.last_parent_label,
                        ..state
                    };
                    assert(state.section().wf());
                    lemma_place_label_kept(
                        marked,
                        SectionLabelView {
                            name: top.name,
                            visibility: top.visibility,
                            offset: state.section().origin,
                        },
                    );
                },
                LabelView::Sub(stated, sublabel) => {
                    if label_step(state, label).1 {
                        assert(state.section().wf());
                        lemma_place_label_kept(
                            state,
                            SectionLabelView {
                                name: full_name(
                                    state.last_parent_label->0.name.val,
                                    sublabel.val,
                                ),
                                visibility: Visibility::Object,
                                offset: state.section().origin,
                            },
                        );
                    }
                },
            }
        },
        ActionView::Instruction(instruction) => {
            lemma_instruction_wrote(state, instruction);
            assert(instruction_step(state, instruction).state.section().wf());
        },
        _ => {
            assert(state.section().wf());
        },
    }
}

/// Code is put at an address of a section by the actions from `index` on:
/// the address is among the bytes that one of the actions puts.
pub open spec fn visited(
    state: GeneratorView,
    program: Seq<ActionView>,
    index: int,
    section: int,
    address: int,
) -> bool
    decreases program.len() - index,
{
    if index < 0 || index >= program.len() {
        false
    } else {
        let step = action_step(state, program, index);
        (section == state.current_section && state.section().origin <= address
            < state.section().origin + step_written(state, program, index)) || (index < step.1
            <= program.len() && visited(step.0, program, step.1, section, address))
    }
}

/// Memory that no code is put into is left as it is: after all the actions
/// of a program, every byte at an address that none of them visited is
/// what it was before, in the sections that there were and in those that
/// were added, which start as zero. The memory of a new generator is zero,
/// so what is never visited stays zero.
pub proof fn lemma_memory_not_visited_is_kept(
    state: GeneratorView,
    program: Seq<ActionView>,
    index: int,
    section: int,
    address: int,
)
    requires
        state.wf(),
        0 <= index,
        0 <= section < run_from(state, program, index).object.len(),
        0 <= address < MEMORY_SIZE,
        !visited(state, program, index, section, address),
    ensures
        run_from(state, program, index).wf(),
        run_from(state, program, index).object[section].data[address] == memory_at(
            state,
            section,
            address,
        ),
    decreases program.len() - index,
{
    if index < program.len() {
        lemma_action_wrote(state, program, index);
        let step = action_step(state, program, index);
        if index < step.1 <= program.len() {
            lemma_memory_not_visited_is_kept(step.0, program, step.1, section, address);
            if section < step.0.object.len() {
                assert(step.0.object[section].data[address] == memory_at(state, section, address));
            }
        } else {
            assert(step.0.object[section].data[address] == memory_at(state, section, address));
        }
    }
}

/// After all the actions of a program on a new generator, every byte of
/// every section at an address that no action visited is zero.
pub proof fn lemma_memory_not_visited_is_zero(
    binary: bool,
    top_file: Seq<char>,
    sources: Seq<SourceFileView>,
    program: Seq<ActionView>,
    section: int,
    address: int,
)
    requires
        0 <= section < run_from(initial_state(binary, top_file, sources), program, 0).object.len(),
        0 <= address < MEMORY_SIZE,
        !visited(initial_state(binary, top_file, sources), program, 0, section, address),
    ensures
        run_from(initial_state(binary, top_file, sources), program, 0).object[section].data[address]
            == 0,
{
    let state = initial_state(binary, top_file, sources);
    assert(state.object[0].wf() && state.object[0].tight());
    lemma_memory_not_visited_is_kept(state, program, 0, section, address);
}

/// The state stays sound through all the actions of a program.
pub proof fn lemma_run_stays_sound(state: GeneratorView, program: Seq<ActionView>, index: int)
    requires
        state.wf(),
        0 <= index,
    ensures
        run_from(state, program, index).wf(),
    decreases program.len() - index,
{
    if index < program.len() {
        lemma_action_wrote(state, program, index);
        let step = action_step(state, program, index);
        if index < step.1 <= program.len() {
            lemma_run_stays_sound(step.0, program, step.1);
        }
    }
}

/// The errors hold one for a recursive inclusion.
pub open spec fn reports_cycle(errors: Seq<AssemblerErrorView>) -> bool {
    exists|i: int| 0 <= i < errors.len() && (#[trigger] errors[i]).message
        == "Recursive include found"@
}

/// Parsing from the line at `pos` gets to the line at `target`, with
/// `target_parent` as the parent of sublabels there.
pub open spec fn reaches(
    env: ParseEnv,
    pos: int,
    parent: Option<Seq<char>>,
    target: int,
    target_parent: Option<Seq<char>>,
) -> bool
    decreases env.tokens.len() - pos,
{
    (pos == target && parent == target_parent) || (0 <= pos < env.tokens.len() && pos < line_spec(
        env,
        pos,
        parent,
    ).pos <= env.tokens.len() && reaches(
        env,
        line_spec(env, pos, parent).pos,
        line_spec(env, pos, parent).parent,
        target,
        target_parent,
    ))
}

/// The file that the line at `pos` includes, and the span of the `inl`: the
/// line has an `inl` whose operand is a string literal that names a file
/// with the extension of a source.
pub open spec fn inclusion_at(env: ParseEnv, pos: int, parent: Option<Seq<char>>) -> Option<
    (Seq<char>, Range<usize>),
> {
    let label = label_spec(env, pos);
    if label.result is Ok && mnemonic_at(env.tokens, label.pos) == Some(Mnemonic::Inl) {
        let operand = operand_spec(env, label.pos + 1, parent_after(parent, label));
        match operand.result {
            Ok(node) => match include_target(node) {
                Some(name) => if has_source_extension(name) {
                    Some((name, span_at(env.tokens, label.pos).start..node->0.span.end))
                } else {
                    None
                },
                None => None,
            },
            Err(_) => None,
        }
    } else {
        None
    }
}

/// A file includes, at most `depth` files deep, a file whose inclusion is
/// under way: one of its lines includes such a file, or includes a file
/// that was read and that includes one.
pub open spec fn cycle_within(env: ParseEnv, depth: nat) -> bool
    decreases depth,
{
    exists|pos: int, parent: Option<Seq<char>>|
        0 <= pos < env.tokens.len() && #[trigger] reaches(env, 0, None, pos, parent)
            && match inclusion_at(env, pos, parent) {
            Some(target) => stack_has(env.stack, target.0) || (depth > 0 && match source_index(
                env.sources,
                target.0,
                0,
            ) {
                Some(index) => match env.sources[index].contents {
                    SourceTextView::Read(text) => cycle_within(
                        included_env(env, target.0, target.1, text),
                        (depth - 1) as nat,
                    ),
                    SourceTextView::Failed(_) => false,
                },
                None => false,
            }),
            None => false,
        }
}

proof fn lemma_errors_are_kept(
    env: ParseEnv,
    pos: int,
    parent: Option<Seq<char>>,
    gathered: Gathered,
    error: AssemblerErrorView,
)
    requires
        gathered.errors.contains(error),
    ensures
        lines_spec(env, pos, parent, gathered).errors.contains(error),
    decreases env.tokens.len() - pos,
{
    if 0 <= pos < env.tokens.len() {
        let line = line_spec(env, pos, parent);
        let next = Gathered {
            program: start_line(gathered.program) + line.actions,
            errors: gathered.errors + line.errors + match line.error {
                Some(own) => seq![own],
                None => Seq::empty(),
            },
            missing: gathered.missing + line.missing,
        };
        let at = choose|i: int| 0 <= i < gathered.errors.len() && gathered.errors[i] == error;
        assert(next.errors[at] == error);
        if pos < line.pos <= env.tokens.len() {
            lemma_errors_are_kept(env, line.pos, line.parent, next, error);
        }
    }
}

/// An error in a file that a line includes is among the errors of the file
/// that the line is in.
pub proof fn lemma_line_errors_surface(
    env: ParseEnv,
    pos: int,
    parent: Option<Seq<char>>,
    gathered: Gathered,
    target: int,
    target_parent: Option<Seq<char>>,
    error: AssemblerErrorView,
)
    requires
        reaches(env, pos, parent, target, target_parent),
        0 <= target < env.tokens.len(),
        line_spec(env, target, target_parent).errors.contains(error),
    ensures
        lines_spec(env, pos, parent, gathered).errors.contains(error),
    decreases env.tokens.len() - pos,
{
    let line = line_spec(env, pos, parent);
    let next = Gathered {
        program: start_line(gathered.program) + line.actions,
        errors: gathered.errors + line.errors + match line.error {
            Some(own) => seq![own],
            None => Seq::empty(),
        },
        missing: gathered.missing + line.missing,
    };
    if pos == target && parent == target_parent {
        let at = choose|i: int| 0 <= i < line.errors.len() && line.errors[i] == error;
        assert(next.errors[gathered.errors.len() + at] == error);
        if pos < line.pos <= env.tokens.len() {
            lemma_errors_are_kept(env, line.pos, line.parent, next, error);
        }
    } else {
        lemma_line_errors_surface(
            env,
            line.pos,
            line.parent,
            next,
            target,
            target_parent,
            error,
        );
    }
}

/// The errors of a file that a line includes are the errors of the line.
pub proof fn lemma_inclusion_errors_are_the_lines(
    env: ParseEnv,
    pos: int,
    parent: Option<Seq<char>>,
)
    requires
        inclusion_at(env, pos, parent) is Some,
    ensures
        ({
            let target = inclusion_at(env, pos, parent).unwrap();
            include_spec(env, target.0, target.1).result matches Err(errors) ==> line_spec(
                env,
                pos,
                parent,
            ).errors == errors
        }),
{
}

/// A cycle of inclusions is an error at any depth: where a file includes,
/// itself or through the files that it includes, a file whose inclusion is
/// under way, parsing it gives the error for a recursive inclusion, which
/// so reaches every file that includes it.
pub proof fn lemma_cycle_is_reported(env: ParseEnv, depth: nat)
    requires
        cycle_within(env, depth),
    ensures
        program_spec(env).result matches Err(errors) && reports_cycle(errors),
    decreases depth,
{
    let (pos, parent) = choose|pos: int, parent: Option<Seq<char>>|
        0 <= pos < env.tokens.len() && #[trigger] reaches(env, 0, None, pos, parent)
            && match inclusion_at(env, pos, parent) {
            Some(target) => stack_has(env.stack, target.0) || (depth > 0 && match source_index(
                env.sources,
                target.0,
                0,
            ) {
                Some(index) => match env.sources[index].contents {
                    SourceTextView::Read(text) => cycle_within(
                        included_env(env, target.0, target.1, text),
                        (depth - 1) as nat,
                    ),
                    SourceTextView::Failed(_) => false,
                },
                None => false,
            }),
            None => false,
        };
    let target = inclusion_at(env, pos, parent)->0;
    let name = target.0;
    let span = target.1;
    lemma_stack_index(env.stack, name, 0);
    if stack_has(env.stack, name) {
        lemma_recursive_inclusion_is_refused(env, name, span);
        let found = stack_index(env.stack, name, 0)->0;
        assert(seq![recursive_include_error(env, name, span, found)][0].message
            == "Recursive include found"@);
    } else {
        lemma_source_index(env.sources, name, 0);
        let index = source_index(env.sources, name, 0)->0;
        let text = env.sources[index].contents->Read_0;
        lemma_include_shrinks(
            env.sources,
            env.stack,
            IncludeView { included: name, loc: LocationView { span, file_name: env.file } },
            index,
        );
        lemma_cycle_is_reported(included_env(env, name, span, text), (depth - 1) as nat);
    }
    let nested = include_spec(env, name, span).result->Err_0;
    assert(include_spec(env, name, span).result is Err);
    assert(reports_cycle(nested));
    let at = choose|i: int| 0 <= i < nested.len() && (#[trigger] nested[i]).message
        == "Recursive include found"@;
    lemma_inclusion_errors_are_the_lines(env, pos, parent);
    assert(line_spec(env, pos, parent).errors[at] == nested[at]);
    let start = Gathered { program: Seq::empty(), errors: Seq::empty(), missing: Seq::empty() };
    lemma_line_errors_surface(env, 0, None, start, pos, parent, nested[at]);
    let all = lines_spec(env, 0, None, start).errors;
    let place = choose|i: int| 0 <= i < all.len() && all[i] == nested[at];
    assert(all[place].message == "Recursive include found"@);
}

/// Every one of the errors points at a place in a source.
pub open spec fn located(errors: Seq<AssemblerErrorView>) -> bool {
    forall|i: int| 0 <= i < errors.len() ==> (#[trigger] errors[i]).labels.len() >= 1
}

proof fn lemma_located_concat(first: Seq<AssemblerErrorView>, second: Seq<AssemblerErrorView>)
    requires
        located(first),
        located(second),
    ensures
        located(first + second),
{
    assert forall|i: int| 0 <= i < (first + second).len() implies (#[trigger] (first
        + second)[i]).labels.len() >= 1 by {
        if i < first.len() {
            assert(first[i].labels.len() >= 1);
        } else {
            assert(second[i - first.len()].labels.len() >= 1);
        }
    }
}

/// An error in a label points at a place.
pub proof fn lemma_label_error_is_located(env: ParseEnv, pos: int)
    ensures
        label_spec(env, pos).result matches Err(error) ==> error.labels.len() >= 1,
{
}

/// An error in an operand points at a place.
pub proof fn lemma_operand_error_is_located(env: ParseEnv, pos: int, parent: Option<Seq<char>>)
    ensures
        operand_spec(env, pos, parent).result matches Err(error) ==> error.labels.len() >= 1,
{
}

proof fn lemma_included_errors_are_located(env: ParseEnv, name: Seq<char>, span: Range<usize>)
    ensures
        include_spec(env, name, span).result matches Err(errors) ==> located(errors),
    decreases include_room(env), 0nat, 0nat,
{
    match stack_index(env.stack, name, 0) {
        Some(_) => {},
        None => match source_index(env.sources, name, 0) {
            None => {},
            Some(index) => match env.sources[index].contents {
                SourceTextView::Failed(_) => {},
                SourceTextView::Read(text) => {
                    if include_room(included_env(env, name, span, text)) < include_room(env) {
                        lemma_parse_errors_are_located(included_env(env, name, span, text));
                    }
                },
            },
        },
    }
}

proof fn lemma_inl_errors_are_located(
    env: ParseEnv,
    mnemonic: Range<usize>,
    operand: Option<SpannedView<OperandView>>,
    pos: int,
)
    ensures
        located(inl_spec(env, mnemonic, operand, pos).errors),
        inl_spec(env, mnemonic, operand, pos).result matches Err(error) ==> error.labels.len()
            >= 1,
    decreases include_room(env), 1nat, 0nat,
{
    match include_target(operand) {
        Some(name) => {
            if has_source_extension(name) {
                lemma_included_errors_are_located(
                    env,
                    name,
                    mnemonic.start..operand->0.span.end,
                );
            }
        },
        None => {},
    }
}

proof fn lemma_instruction_errors_are_located(
    env: ParseEnv,
    pos: int,
    parent: Option<Seq<char>>,
)
    ensures
        located(instruction_spec(env, pos, parent).errors),
        instruction_spec(env, pos, parent).result matches Err(error) ==> error.labels.len() >= 1,
    decreases include_room(env), 2nat, 0nat,
{
    match mnemonic_at(env.tokens, pos) {
        None => {},
        Some(mnemonic) => {
            if !mnemonic.spec_is_implied() {
                let operand = operand_spec(env, pos + 1, parent);
                lemma_operand_error_is_located(env, pos + 1, parent);
                if operand.result is Ok && mnemonic == Mnemonic::Inl {
                    lemma_inl_errors_are_located(
                        env,
                        span_at(env.tokens, pos),
                        operand.result->Ok_0,
                        operand.pos,
                    );
                }
            }
        },
    }
}

proof fn lemma_line_errors_are_located(env: ParseEnv, pos: int, parent: Option<Seq<char>>)
    ensures
        located(line_spec(env, pos, parent).errors),
        line_spec(env, pos, parent).error matches Some(error) ==> error.labels.len() >= 1,
    decreases include_room(env), 3nat, 0nat,
{
    let label = label_spec(env, pos);
    lemma_label_error_is_located(env, pos);
    if label.result is Ok {
        lemma_instruction_errors_are_located(env, label.pos, parent_after(parent, label));
    }
}

proof fn lemma_lines_errors_are_located(
    env: ParseEnv,
    pos: int,
    parent: Option<Seq<char>>,
    gathered: Gathered,
)
    requires
        located(gathered.errors),
    ensures
        located(lines_spec(env, pos, parent, gathered).errors),
    decreases include_room(env), 4nat, env.tokens.len() - pos,
{
    if 0 <= pos < env.tokens.len() {
        let line = line_spec(env, pos, parent);
        lemma_line_errors_are_located(env, pos, parent);
        let own: Seq<AssemblerErrorView> = match line.error {
            Some(error) => seq![error],
            None => Seq::empty(),
        };
        lemma_located_concat(gathered.errors, line.errors);
        lemma_located_concat(gathered.errors + line.errors, own);
        let next = Gathered {
            program: start_line(gathered.program) + line.actions,
            errors: gathered.errors + line.errors + own,
            missing: gathered.missing + line.missing,
        };
        if pos < line.pos <= env.tokens.len() {
            lemma_lines_errors_are_located(env, line.pos, line.parent, next);
        }
    }
}

/// Every error that the parser reports carries at least one place in a
/// source, those of included files too.
pub proof fn lemma_parse_errors_are_located(env: ParseEnv)
    ensures
        program_spec(env).result matches Err(errors) ==> located(errors),
    decreases include_room(env), 5nat, 0nat,
{
    lemma_lines_errors_are_located(
        env,
        0,
        None,
        Gathered { program: Seq::empty(), errors: Seq::empty(), missing: Seq::empty() },
    );
}

/// Every error that an action of the code generator adds carries at least
/// one place in a source.
pub proof fn lemma_generation_errors_are_located(
    state: GeneratorView,
    program: Seq<ActionView>,
    index: int,
)
    requires
        0 <= index,
        located(state.errors),
    ensures
        located(run_from(state, program, index).errors),
    decreases program.len() - index,
{
    if index < program.len() {
        let step = action_step(state, program, index);
        assert(located(step.0.errors)) by {
            match program[index] {
                ActionView::Instruction(instruction) => {
                    let emitted = instruction_step(state, instruction);
                    assert(emitted.state.errors == state.errors);
                    match emitted.result {
                        Err(error) => {
                            lemma_instruction_error_is_located(state, instruction);
                            lemma_located_concat(state.errors, seq![error]);
                            assert(step.0.errors =~= state.errors + seq![error]);
                        },
                        Ok(_) => {},
                    }
                },
                ActionView::Label(label) => {
                    if !label_step(state, label).1 {
                        let error = label_step(state, label).0.errors.last();
                        lemma_located_concat(state.errors, seq![error]);
                        assert(step.0.errors =~= state.errors + seq![error]);
                    }
                },
                _ => {},
            }
        }
        if index < step.1 <= program.len() {
            lemma_generation_errors_are_located(step.0, program, step.1);
        }
    }
}

/// The error of an instruction points at a place, and an instruction adds
/// no error by itself.
pub proof fn lemma_instruction_error_is_located(
    state: GeneratorView,
    instruction: SpannedView<InstructionView>,
)
    ensures
        instruction_step(state, instruction).state.errors == state.errors,
        instruction_step(state, instruction).result matches Err(error) ==> error.labels.len()
            >= 1,
{
    let mnemonic = instruction.val.mnemonic.val;
    match instruction.val.operand {
        Some(operand) => {
            let resolved = resolve_operand_spec(state, operand, mnemonic.spec_is_branch());
            if mnemonic == Mnemonic::Dfb {
                match resolved.0 {
                    ActualValueView::String(string) => {
                        lemma_screen_error_is_located(string, 0, AppleCharacterMode::Normal, state.location(operand.span));
                    },
                    _ => {},
                }
            }
        },
        None => {},
    }
}

/// An error in a string for the screen points at a place.
pub proof fn lemma_screen_error_is_located(
    characters: Seq<char>,
    index: int,
    mode: AppleCharacterMode,
    location: LocationView,
)
    ensures
        encode_from(characters, index, mode, location) matches Err(error)
            ==> error.labels.len() >= 1,
    decreases characters.len() - index,
{
    if 0 <= index < characters.len() {
        lemma_screen_error_is_located(characters, index + 1, mode, location);
    }
    if 0 <= index && index + 1 < characters.len() {
        lemma_screen_error_is_located(characters, index + 2, mode, location);
        lemma_screen_error_is_located(
            characters,
            index + 2,
            AppleCharacterMode::Normal,
            location,
        );
        lemma_screen_error_is_located(
            characters,
            index + 2,
            AppleCharacterMode::Flashing,
            location,
        );
        lemma_screen_error_is_located(
            characters,
            index + 2,
            AppleCharacterMode::Inverse,
            location,
        );
    }
}

/// Every error of the relocation pass points at the reference that it is
/// about.
pub proof fn lemma_relocation_errors_are_located(
    data: Seq<u8>,
    labels: Seq<SectionLabelView>,
    references: Seq<ReferenceView>,
)
    ensures
        located(resolve_all(data, labels, references).1),
    decreases references.len(),
{
    if references.len() > 0 {
        lemma_relocation_errors_are_located(data, labels, references.drop_last());
    }
}

/// `sct` with a name that no section has adds an empty section of that
/// name and makes it the current one; only the one section that there is
/// at first is given the name instead, while it is empty.
pub proof fn lemma_new_section_is_added(state: GeneratorView, name: Seq<char>, span: Range<usize>)
    requires
        state.wf(),
        !state.binary,
        section_index(state.object, name, 0) is None,
    ensures
        sct_spec(state, ActualValueView::String(name), span).result == Ok::<
            usize,
            AssemblerErrorView,
        >(0),
        state.object.len() == 1 && state.object[0].origin == 0 ==> sct_spec(
            state,
            ActualValueView::String(name),
            span,
        ).state == (GeneratorView {
            object: seq![SectionView { name, ..state.object[0] }],
            ..state
        }),
        !(state.object.len() == 1 && state.object[0].origin == 0) ==> sct_spec(
            state,
            ActualValueView::String(name),
            span,
        ).state == (GeneratorView {
            object: state.object.push(SectionView::empty(name)),
            current_section: state.object.len() as int,
            ..state
        }),
{
    if state.object.len() == 1 && state.object[0].origin == 0 {
        assert(state.object.update(0, SectionView { name, ..state.object[0] }) =~= seq![
            SectionView { name, ..state.object[0] },
        ]);
    }
}

/// A reference to a label under a modifier is one byte wide: an address
/// that it is the value of is in the zero page, as for a byte.
pub proof fn lemma_modified_reference_narrows(
    state: GeneratorView,
    operand: SpannedView<OperandView>,
    branch: bool,
)
    requires
        state.wf(),
        operand.val.value.val matches ValueView::Reference(name) && macro_of(
            state.macros,
            name,
            0,
        ) is None,
        operand.val.modifier is Some,
    ensures
        resolve_operand_spec(state, operand, branch).0 matches ActualValueView::Reference(
            reference,
        ) && reference.width() == 1 && reference.offset == state.section().origin + 1,
        resolve_operand_spec(state, operand, branch).1 == narrowed(address_mode_of(operand.val.mode, false, branch)),
{
}

/// A string is no operand of the processor: the instruction is an error,
/// and nothing is put for it.
pub proof fn lemma_string_operand_puts_nothing(
    state: GeneratorView,
    mnemonic: Mnemonic,
    mode: AddressMode,
    string: Seq<char>,
    span: Range<usize>,
)
    ensures
        cpu_spec(state, mnemonic, mode, ActualValueView::String(string), span).result is Err,
        cpu_spec(state, mnemonic, mode, ActualValueView::String(string), span).state == state,
{
}

} // verus!
