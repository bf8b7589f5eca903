//! What code generation does, as a state machine: the state of the
//! generator, and what every action of a program makes of it.

use crate::apple::apple_encoding;
use crate::ast::{
    address_mode_of, ActionView, AddressMode, InstructionView, LabelView, LocationView, Mnemonic,
    Modifier, OperandView, SpannedView, ValueView, Visibility,
};
use crate::error::AssemblerErrorView;
use crate::opcodes::opcode_of;
use crate::section::{MEMORY_SIZE, ReferenceView, SectionLabelView, SectionView};
use crate::sources::{source_index, SourceFileView, SourceTextView};
use crate::text::{ascii_text, text_of};
use std::ops::Range;
use vstd::prelude::*;
use vstd::utf8::encode_utf8;

verus! {

/// A constant defined with `equ`, and where it was defined.
pub enum MacroView {
    Byte(u8, LocationView),
    Word(u16, LocationView),
    String(Seq<char>, LocationView),
}

impl MacroView {
    pub open spec fn location(self) -> LocationView {
        match self {
            MacroView::Byte(_, location) => location,
            MacroView::Word(_, location) => location,
            MacroView::String(_, location) => location,
        }
    }
}

/// The macro of a name: the first from `from` on.
pub open spec fn macro_of(macros: Seq<(Seq<char>, MacroView)>, name: Seq<char>, from: int) -> Option<
    MacroView,
>
    decreases macros.len() - from,
{
    if from < 0 || from >= macros.len() {
        None
    } else if macros[from].0 == name {
        Some(macros[from].1)
    } else {
        macro_of(macros, name, from + 1)
    }
}

/// A line of the listing: where its code lies, and its text. A line without
/// a place is a marker.
pub struct ListingView {
    pub location: Option<(usize, usize, usize)>,
    pub code: Seq<char>,
}

/// The parent of the sublabels that follow: its name, and the file it is in.
pub struct ParentLabelView {
    pub name: SpannedView<Seq<char>>,
    pub file: Seq<char>,
}

/// The state of the code generator.
pub struct GeneratorView {
    /// Whether a raw binary is assembled, and not an object.
    pub binary: bool,
    /// The files of the program, from which the listing takes its text.
    pub sources: Seq<SourceFileView>,
    /// The sections being built.
    pub object: Seq<SectionView>,
    /// The section that code is put into.
    pub current_section: int,
    pub line_source_start: usize,
    pub line_source_end: usize,
    pub line_section_start: usize,
    pub line_section_end: usize,
    /// The files being included, the current one last, each with the place
    /// in the source of the one before it at which that one goes on.
    pub include_stack: Seq<(Seq<char>, usize)>,
    pub last_parent_label: Option<ParentLabelView>,
    pub macros: Seq<(Seq<char>, MacroView)>,
    /// A top label stands on this line, so that `equ` can name a macro.
    pub macro_valid: bool,
    pub errors: Seq<AssemblerErrorView>,
    pub listing: Seq<ListingView>,
}

impl GeneratorView {
    /// The state is sound: there is a current section, every section is
    /// sound and its image holds all of its code, and a file is being read.
    pub open spec fn wf(self) -> bool {
        &&& 0 <= self.current_section < self.object.len()
        &&& forall|i: int|
            0 <= i < self.object.len() ==> (#[trigger] self.object[i]).wf()
                && self.object[i].tight()
        &&& self.include_stack.len() >= 1
        &&& self.line_section_start <= MEMORY_SIZE
    }

    /// The section that code is put into.
    pub open spec fn section(self) -> SectionView {
        self.object[self.current_section]
    }

    /// The file that is being read.
    pub open spec fn file(self) -> Seq<char> {
        self.include_stack.last().0
    }

    /// A place in the file that is being read.
    pub open spec fn location(self, span: Range<usize>) -> LocationView {
        LocationView { span, file_name: self.file() }
    }

    /// The state with the current section replaced.
    pub open spec fn with_section(self, section: SectionView) -> GeneratorView {
        GeneratorView { object: self.object.update(self.current_section, section), ..self }
    }

    /// The current section has room for that many bytes of code.
    pub open spec fn has_room(self, count: int) -> bool {
        self.section().origin + count <= MEMORY_SIZE
    }

    /// An error at a place in the file that is being read.
    pub open spec fn error(self, message: Seq<char>, span: Range<usize>) -> AssemblerErrorView {
        AssemblerErrorView { message, labels: seq![(self.location(span), None)], help: None }
    }

    /// The same, with a note beside the place.
    pub open spec fn noted_error(
        self,
        message: Seq<char>,
        span: Range<usize>,
        note: Seq<char>,
    ) -> AssemblerErrorView {
        AssemblerErrorView {
            message,
            labels: seq![(self.location(span), Some(note))],
            help: None,
        }
    }
}

/// The state in which code generation starts: one section, `default`, and
/// the file that the assembler was started on.
pub open spec fn initial_state(
    binary: bool,
    top_file: Seq<char>,
    sources: Seq<SourceFileView>,
) -> GeneratorView {
    GeneratorView {
        binary,
        sources,
        object: seq![SectionView::empty("default"@)],
        current_section: 0,
        line_source_start: 0,
        line_source_end: 0,
        line_section_start: 0,
        line_section_end: 0,
        include_stack: seq![(top_file, 0usize)],
        last_parent_label: None,
        macros: Seq::empty(),
        macro_valid: false,
        errors: Seq::empty(),
        listing: Seq::empty(),
    }
}

/// The section with a byte put at its origin. The origin moves on; the
/// highest origin moves with it where the byte was put at the end of the
/// code; and code at zero makes zero the lowest origin.
pub open spec fn insert_byte(section: SectionView, byte: u8) -> SectionView {
    SectionView {
        data: section.data.update(section.origin as int, byte),
        origin: (section.origin + 1) as usize,
        lowest_origin: if section.origin == 0 {
            Some(0usize)
        } else {
            section.lowest_origin
        },
        highest_origin: if section.origin == section.highest_origin {
            (section.highest_origin + 1) as usize
        } else {
            section.highest_origin
        },
        ..section
    }
}

/// The section with bytes put at its origin, one after the other.
pub open spec fn insert_bytes(section: SectionView, bytes: Seq<u8>) -> SectionView
    decreases bytes.len(),
{
    if bytes.len() == 0 {
        section
    } else {
        insert_byte(insert_bytes(section, bytes.drop_last()), bytes.last())
    }
}

/// The bytes of a word: the low byte first.
pub open spec fn word_bytes(word: u16) -> Seq<u8> {
    seq![(word % 256) as u8, (word / 256) as u8]
}

/// Putting a byte changes no other byte, and the byte is put where the
/// origin was.
pub proof fn lemma_insert_byte(section: SectionView, byte: u8, address: int)
    requires
        section.wf(),
        section.origin < MEMORY_SIZE,
        0 <= address < MEMORY_SIZE,
    ensures
        insert_byte(section, byte).wf(),
        section.tight() ==> insert_byte(section, byte).tight(),
        insert_byte(section, byte).data[section.origin as int] == byte,
        address != section.origin ==> insert_byte(section, byte).data[address]
            == section.data[address],
        insert_byte(section, byte).labels == section.labels,
        insert_byte(section, byte).references == section.references,
{
}

/// Putting bytes of code keeps a section sound while it has room, moves the
/// origin on by their number, and changes no byte outside of them: memory
/// that no code was put into stays as it was.
pub proof fn lemma_insert_bytes(section: SectionView, bytes: Seq<u8>)
    requires
        section.wf(),
        section.origin + bytes.len() <= MEMORY_SIZE,
    ensures
        insert_bytes(section, bytes).wf(),
        section.tight() ==> insert_bytes(section, bytes).tight(),
        insert_bytes(section, bytes).origin == section.origin + bytes.len(),
        insert_bytes(section, bytes).image_start() <= section.origin,
        insert_bytes(section, bytes).labels == section.labels,
        insert_bytes(section, bytes).references == section.references,
        insert_bytes(section, bytes).name == section.name,
        forall|address: int|
            0 <= address < MEMORY_SIZE && !(section.origin <= address < section.origin
                + bytes.len()) ==> #[trigger] insert_bytes(section, bytes).data[address]
                == section.data[address],
        forall|k: int|
            0 <= k < bytes.len() ==> #[trigger] insert_bytes(section, bytes).data[section.origin
                + k] == bytes[k],
    decreases bytes.len(),
{
    if bytes.len() > 0 {
        lemma_insert_bytes(section, bytes.drop_last());
        let before = insert_bytes(section, bytes.drop_last());
        lemma_insert_byte(before, bytes.last(), 0);
        assert forall|k: int| 0 <= k < bytes.len() implies #[trigger] insert_bytes(
            section,
            bytes,
        ).data[section.origin + k] == bytes[k] by {
            if k < bytes.len() - 1 {
                assert(before.data[section.origin + k] == bytes.drop_last()[k]);
            }
        }
    }
}

/// The value of an operand once macros are looked up.
pub enum ActualValueView {
    Accumulator,
    Byte(u8),
    Word(u16),
    String(Seq<char>),
    /// A reference to a label, to be resolved when all labels are known.
    Reference(ReferenceView),
    /// An included file, which no instruction takes.
    File,
}

/// The address mode of a value that turned out one byte wide.
pub open spec fn narrowed(mode: AddressMode) -> AddressMode {
    match mode {
        AddressMode::Absolute => AddressMode::Zeropage,
        AddressMode::AbsoluteX => AddressMode::ZeropageX,
        AddressMode::AbsoluteY => AddressMode::ZeropageY,
        _ => mode,
    }
}

pub open spec fn high_of(word: u16) -> u8 {
    (word / 256) as u8
}

pub open spec fn low_of(word: u16) -> u8 {
    (word % 256) as u8
}

/// A byte in an address mode: an indirect address is always a word.
pub open spec fn widened_byte(byte: u8, mode: AddressMode) -> ActualValueView {
    if mode == AddressMode::Indirect {
        ActualValueView::Word(byte as u16)
    } else {
        ActualValueView::Byte(byte)
    }
}

/// A word under an optional modifier: a modifier takes one byte of it, and
/// the address mode is narrowed with it.
pub open spec fn modified_word(
    word: u16,
    modifier: Option<SpannedView<Modifier>>,
    mode: AddressMode,
) -> (ActualValueView, AddressMode) {
    match modifier {
        Some(modifier) => (
            ActualValueView::Byte(
                match modifier.val {
                    Modifier::HighByte => high_of(word),
                    Modifier::LowByte => low_of(word),
                },
            ),
            narrowed(mode),
        ),
        None => (ActualValueView::Word(word), mode),
    }
}

/// The value and the address mode of an operand. A name that is a macro
/// stands for the value of the macro, and a byte narrows the address mode
/// to the zero page; any other name is a reference to a label, to be
/// patched after the opcode of the instruction, which is one byte wide
/// under a modifier and narrows the address mode like a byte.
pub open spec fn resolve_operand_spec(
    state: GeneratorView,
    operand: SpannedView<OperandView>,
    branch: bool,
) -> (ActualValueView, AddressMode) {
    let mode = address_mode_of(operand.val.mode, operand.val.value.val is Byte, branch);
    match operand.val.value.val {
        ValueView::Reference(symbol) => match macro_of(state.macros, symbol, 0) {
            Some(MacroView::Byte(byte, _)) => (
                widened_byte(byte, narrowed(mode)),
                narrowed(mode),
            ),
            Some(MacroView::Word(word, _)) => modified_word(word, operand.val.modifier, mode),
            Some(MacroView::String(string, _)) => (ActualValueView::String(string), mode),
            None => (
                ActualValueView::Reference(
                    ReferenceView {
                        name: symbol,
                        offset: (state.section().origin + 1) as usize,
                        modifier: operand.val.modifier,
                        branch,
                        location: state.location(operand.span),
                    },
                ),
                if operand.val.modifier is Some {
                    narrowed(mode)
                } else {
                    mode
                },
            ),
        },
        ValueView::Accumulator => (ActualValueView::Accumulator, mode),
        ValueView::Byte(byte) => (widened_byte(byte, mode), mode),
        ValueView::Word(word) => modified_word(word, operand.val.modifier, mode),
        ValueView::String(string) => (ActualValueView::String(string), mode),
        ValueView::Include(_) => (ActualValueView::File, mode),
    }
}

/// What handling an instruction made of the state, and how many bytes of
/// code it put, or the error in it.
pub struct Emitted {
    pub state: GeneratorView,
    pub result: Result<usize, AssemblerErrorView>,
}

pub open spec fn done(state: GeneratorView, count: int) -> Emitted {
    Emitted { state, result: Ok(count as usize) }
}

pub open spec fn refused(state: GeneratorView, error: AssemblerErrorView) -> Emitted {
    Emitted { state, result: Err(error) }
}

/// The state with bytes of code put into the current section.
pub open spec fn emit(state: GeneratorView, bytes: Seq<u8>) -> GeneratorView {
    state.with_section(insert_bytes(state.section(), bytes))
}

/// The state with a reference added to the current section.
pub open spec fn refer(state: GeneratorView, reference: ReferenceView) -> GeneratorView {
    state.with_section(
        SectionView { references: state.section().references.push(reference), ..state.section() },
    )
}

/// The state with a label added to the current section.
pub open spec fn place_label(state: GeneratorView, label: SectionLabelView) -> GeneratorView {
    state.with_section(
        SectionView { labels: state.section().labels.push(label), ..state.section() },
    )
}

/// The error for code that the section has no room for.
pub open spec fn no_room_error(state: GeneratorView, span: Range<usize>) -> AssemblerErrorView {
    state.error("The section has no room for this code"@, span)
}

/// Parts joined by a separator.
pub open spec fn joined(parts: Seq<Seq<char>>, separator: Seq<char>) -> Seq<char>
    decreases parts.len(),
{
    if parts.len() == 0 {
        Seq::empty()
    } else if parts.len() == 1 {
        parts[0]
    } else {
        joined(parts.drop_last(), separator) + separator + parts.last()
    }
}

/// The names of the address modes, among the first `count`, in which a
/// mnemonic has an opcode.
pub open spec fn valid_mode_names(mnemonic: Mnemonic, count: int) -> Seq<Seq<char>>
    decreases count,
{
    if count <= 0 {
        Seq::empty()
    } else {
        let mode = AddressMode::spec_at(count - 1);
        if opcode_of(mnemonic, mode) is Some {
            valid_mode_names(mnemonic, count - 1).push(mode.spec_string_rep(mnemonic))
        } else {
            valid_mode_names(mnemonic, count - 1)
        }
    }
}

/// The error for a mnemonic in an address mode in which it has no opcode:
/// it lists the modes in which it has one.
pub open spec fn invalid_mode_error(
    state: GeneratorView,
    mnemonic: Mnemonic,
    mode: AddressMode,
    span: Range<usize>,
) -> AssemblerErrorView {
    AssemblerErrorView {
        message: mode.spec_string_rep(mnemonic) + " address mode is invalid for instruction `"@
            + ascii_text(mnemonic.name()) + "`"@,
        labels: seq![(state.location(span), None)],
        help: Some(
            "Valid address modes are:\n    "@ + joined(
                valid_mode_names(mnemonic, 12),
                "\n    "@,
            ),
        ),
    }
}

/// An instruction without an operand: its opcode in the implied mode.
pub open spec fn implied_spec(
    state: GeneratorView,
    mnemonic: Mnemonic,
    span: Range<usize>,
) -> Emitted {
    match opcode_of(mnemonic, AddressMode::Implied) {
        Some(opcode) => if state.has_room(1) {
            done(emit(state, seq![opcode]), 1)
        } else {
            refused(state, no_room_error(state, span))
        },
        None => refused(state, invalid_mode_error(state, mnemonic, AddressMode::Implied, span)),
    }
}

/// A reference moved back over the opcode that a directive does not have.
pub open spec fn at_directive(reference: ReferenceView) -> ReferenceView {
    ReferenceView { offset: (reference.offset - 1) as usize, ..reference }
}

/// `dfb`: a byte, the screen bytes of a string, or one byte of the address
/// of a label.
pub open spec fn dfb_spec(state: GeneratorView, value: ActualValueView, span: Range<usize>) -> Emitted {
    match value {
        ActualValueView::Byte(byte) => if state.has_room(1) {
            done(emit(state, seq![byte]), 1)
        } else {
            refused(state, no_room_error(state, span))
        },
        ActualValueView::String(string) => if span.start + string.len() + 2 <= usize::MAX {
            match apple_encoding(string, state.location(span)) {
                Ok(bytes) => if state.has_room(bytes.len() as int) {
                    done(emit(state, bytes), bytes.len() as int)
                } else {
                    refused(state, no_room_error(state, span))
                },
                Err(error) => refused(state, error),
            }
        } else {
            refused(state, no_room_error(state, span))
        },
        ActualValueView::Reference(reference) => if reference.modifier is Some {
            if state.has_room(1) {
                done(refer(emit(state, seq![0u8]), at_directive(reference)), 1)
            } else {
                refused(state, no_room_error(state, span))
            }
        } else {
            refused(
                state,
                state.noted_error(
                    "The `dfb` directive expects a byte operand"@,
                    span,
                    "Referenced symbol is assumed to be a word"@,
                ),
            )
        },
        _ => refused(state, state.error("The `dfb` directive expects a byte operand"@, span)),
    }
}

/// `dfw`: a word, or the address of a label.
pub open spec fn dfw_spec(state: GeneratorView, value: ActualValueView, span: Range<usize>) -> Emitted {
    match value {
        ActualValueView::Word(word) => if state.has_room(2) {
            done(emit(state, word_bytes(word)), 2)
        } else {
            refused(state, no_room_error(state, span))
        },
        ActualValueView::Reference(reference) => match reference.modifier {
            Some(modifier) => refused(
                state,
                state.noted_error(
                    "The `dfw` directive expects a word operand"@,
                    modifier.span,
                    "Modifier turns this word into a byte"@,
                ),
            ),
            None => if state.has_room(2) {
                done(refer(emit(state, seq![0u8, 0u8]), at_directive(reference)), 2)
            } else {
                refused(state, no_room_error(state, span))
            },
        },
        _ => refused(state, state.error("The `dfw` directive expects a word operand"@, span)),
    }
}

/// The state without the label that was placed last.
pub open spec fn drop_label(state: GeneratorView) -> GeneratorView {
    state.with_section(
        SectionView { labels: state.section().labels.drop_last(), ..state.section() },
    )
}

/// The error for a macro that is defined a second time: it points at both
/// definitions.
pub open spec fn macro_defined_error(
    state: GeneratorView,
    name: Seq<char>,
    span: Range<usize>,
    first: LocationView,
) -> AssemblerErrorView {
    AssemblerErrorView {
        message: "The macro `"@ + name + "` has already been defined"@,
        labels: seq![(state.location(span), None), (first, Some("Already defined here"@))],
        help: None,
    }
}

/// `equ`: the top label of the line is taken back and names a macro with
/// the value of the operand. A macro is defined once.
pub open spec fn equ_spec(state: GeneratorView, value: ActualValueView, span: Range<usize>) -> Emitted {
    if !state.macro_valid || state.section().labels.len() == 0 {
        refused(state, state.error("A name is not present for this macro"@, span))
    } else {
        let name = state.section().labels.last().name;
        let dropped = drop_label(state);
        match macro_of(state.macros, name, 0) {
            Some(first) => refused(
                dropped,
                macro_defined_error(state, name, span, first.location()),
            ),
            None => {
                let location = state.location(span);
                match value {
                    ActualValueView::Byte(byte) => done(
                        GeneratorView {
                            macros: dropped.macros.push((name, MacroView::Byte(byte, location))),
                            ..dropped
                        },
                        0,
                    ),
                    ActualValueView::Word(word) => done(
                        GeneratorView {
                            macros: dropped.macros.push((name, MacroView::Word(word, location))),
                            ..dropped
                        },
                        0,
                    ),
                    ActualValueView::String(string) => done(
                        GeneratorView {
                            macros: dropped.macros.push(
                                (name, MacroView::String(string, location)),
                            ),
                            ..dropped
                        },
                        0,
                    ),
                    _ => refused(
                        dropped,
                        state.error("The `equ` directive expects a byte or word operand"@, span),
                    ),
                }
            },
        }
    }
}

/// The section with its origin set. An origin above the highest origin
/// becomes the highest, and one below the lowest the lowest.
pub open spec fn set_origin(section: SectionView, origin: usize) -> SectionView {
    SectionView {
        origin,
        highest_origin: if origin > section.highest_origin {
            origin
        } else {
            section.highest_origin
        },
        lowest_origin: match section.lowest_origin {
            Some(lowest) => if origin < lowest {
                Some(origin)
            } else {
                Some(lowest)
            },
            None => Some(origin),
        },
        ..section
    }
}

/// `org`, in a binary only: the origin of the current section is set to a
/// word.
pub open spec fn org_spec(state: GeneratorView, value: ActualValueView, span: Range<usize>) -> Emitted {
    if !state.binary {
        refused(state, state.error("The `org` directive cannot be used in object mode"@, span))
    } else {
        match value {
            ActualValueView::Word(word) => done(
                GeneratorView {
                    line_section_start: word as usize,
                    ..state.with_section(set_origin(state.section(), word as usize))
                },
                0,
            ),
            _ => refused(state, state.error("The `org` directive expects a word operand"@, span)),
        }
    }
}

/// The first section from `from` on that has a name.
pub open spec fn section_index(object: Seq<SectionView>, name: Seq<char>, from: int) -> Option<int>
    decreases object.len() - from,
{
    if from < 0 || from >= object.len() {
        None
    } else if object[from].name == name {
        Some(from)
    } else {
        section_index(object, name, from + 1)
    }
}

pub proof fn lemma_section_index(object: Seq<SectionView>, name: Seq<char>, from: int)
    requires
        0 <= from,
    ensures
        match section_index(object, name, from) {
            Some(index) => from <= index < object.len() && object[index].name == name,
            None => true,
        },
    decreases object.len() - from,
{
    if from < object.len() && object[from].name != name {
        lemma_section_index(object, name, from + 1);
    }
}

/// `sct`, in an object only: the section of a name becomes the current one.
/// Where no section has the name, the one section that there is at first is
/// given the name while it is empty; otherwise a new section is added and
/// becomes the current one.
pub open spec fn sct_spec(state: GeneratorView, value: ActualValueView, span: Range<usize>) -> Emitted {
    if state.binary {
        refused(state, state.error("The `sct` directive is not allowed in binary mode"@, span))
    } else {
        match value {
            ActualValueView::String(name) => match section_index(state.object, name, 0) {
                Some(index) => done(GeneratorView { current_section: index, ..state }, 0),
                None => if state.object.len() == 1 && state.object[0].origin == 0 {
                    done(
                        GeneratorView {
                            object: state.object.update(0, SectionView { name, ..state.object[0] }),
                            ..state
                        },
                        0,
                    )
                } else {
                    done(
                        GeneratorView {
                            current_section: state.object.len() as int,
                            object: state.object.push(SectionView::empty(name)),
                            ..state
                        },
                        0,
                    )
                },
            },
            _ => refused(state, state.error("The `sct` directive expects a string operand"@, span)),
        }
    }
}

/// How many bytes the operand of an instruction of the processor takes.
pub open spec fn operand_width(value: ActualValueView, branch: bool) -> int {
    match value {
        ActualValueView::Byte(_) => 1,
        ActualValueView::Word(_) => 2,
        ActualValueView::Reference(reference) => if reference.modifier is Some || branch {
            1
        } else {
            2
        },
        _ => 0,
    }
}

/// An instruction of the processor: its opcode in the address mode, and the
/// bytes of its operand. A reference to a label reserves the bytes that are
/// patched later: one for a branch or under a modifier, else two. A string
/// is no operand of the processor, and nothing is put for it.
pub open spec fn cpu_spec(
    state: GeneratorView,
    mnemonic: Mnemonic,
    mode: AddressMode,
    value: ActualValueView,
    span: Range<usize>,
) -> Emitted {
    match opcode_of(mnemonic, mode) {
        None => refused(state, invalid_mode_error(state, mnemonic, mode, span)),
        Some(opcode) => if value is String || value is File {
            refused(
                state,
                state.error(
                    "String operands are only allowed for the `dfb` and `inl` directives"@,
                    span,
                ),
            )
        } else if !state.has_room(1 + operand_width(value, mnemonic.spec_is_branch())) {
            refused(state, no_room_error(state, span))
        } else {
            let coded = emit(state, seq![opcode]);
            match value {
                ActualValueView::Byte(byte) => done(emit(coded, seq![byte]), 2),
                ActualValueView::Word(word) => done(emit(coded, word_bytes(word)), 3),
                ActualValueView::Reference(reference) => if reference.modifier is Some
                    || mnemonic.spec_is_branch() {
                    done(refer(emit(coded, seq![0u8]), reference), 2)
                } else {
                    done(refer(emit(coded, seq![0u8, 0u8]), reference), 3)
                },
                _ => done(coded, 1),
            }
        },
    }
}

/// An instruction: a directive does what it is for, and an instruction of
/// the processor is encoded.
pub open spec fn instruction_step(
    state: GeneratorView,
    instruction: SpannedView<InstructionView>,
) -> Emitted {
    let mnemonic = instruction.val.mnemonic.val;
    match instruction.val.operand {
        None => implied_spec(state, mnemonic, instruction.span),
        Some(operand) => {
            let resolved = resolve_operand_spec(state, operand, mnemonic.spec_is_branch());
            match mnemonic {
                Mnemonic::Dfb => dfb_spec(state, resolved.0, operand.span),
                Mnemonic::Dfw => dfw_spec(state, resolved.0, operand.span),
                Mnemonic::Equ => equ_spec(state, resolved.0, instruction.span),
                Mnemonic::Org => org_spec(state, resolved.0, instruction.span),
                Mnemonic::Sct => sct_spec(state, resolved.0, instruction.span),
                _ => cpu_spec(state, mnemonic, resolved.1, resolved.0, operand.span),
            }
        },
    }
}

/// The name of a sublabel in the section: that of its parent, a period, and
/// its own.
pub open spec fn full_name(parent: Seq<char>, name: Seq<char>) -> Seq<char> {
    parent + "."@ + name
}

/// The error for a sublabel that no top label comes before.
pub open spec fn orphan_error(state: GeneratorView, sublabel: SpannedView<Seq<char>>) -> AssemblerErrorView {
    AssemblerErrorView {
        message: "No parent label to put sublabel under"@,
        labels: seq![(state.location(sublabel.span), None)],
        help: Some("Did you mean to create a parent label `"@ + sublabel.val + "`?"@),
    }
}

/// The error for a sublabel whose stated parent is not the top label that
/// came last: it points at both.
pub open spec fn parent_mismatch_error(
    state: GeneratorView,
    stated: SpannedView<Seq<char>>,
    parent: ParentLabelView,
) -> AssemblerErrorView {
    AssemblerErrorView {
        message: "Explicit parent label does not match most recent parent label"@,
        labels: seq![
            (state.location(stated.span), Some("Found `"@ + stated.val + "`"@)),
            (
                LocationView { span: parent.name.span, file_name: parent.file },
                Some("Expected `"@ + parent.name.val + "`"@),
            ),
        ],
        help: Some("Change `"@ + stated.val + "` to `"@ + parent.name.val + "`"@),
    }
}

/// A label: it is placed at the origin of the current section. A top label
/// becomes the parent of the sublabels that follow, and `equ` can make a
/// macro of it. A sublabel is placed under the name of its parent; without
/// a parent, or with a stated parent that is not the parent, it is an
/// error, which is added to the errors.
pub open spec fn label_step(state: GeneratorView, label: SpannedView<LabelView>) -> (
    GeneratorView,
    bool,
) {
    let offset = state.section().origin;
    match label.val {
        LabelView::Top(top) => (
            place_label(
                GeneratorView {
                    macro_valid: true,
                    last_parent_label: Some(
                        ParentLabelView {
                            name: SpannedView { val: top.name, span: label.span },
                            file: state.file(),
                        },
                    ),
                    ..state
                },
                SectionLabelView { name: top.name, visibility: top.visibility, offset },
            ),
            true,
        ),
        LabelView::Sub(stated, sublabel) => match state.last_parent_label {
            None => (
                GeneratorView { errors: state.errors.push(orphan_error(state, sublabel)), ..state },
                false,
            ),
            Some(parent) => if stated is Some && stated->0.val != parent.name.val {
                (
                    GeneratorView {
                        errors: state.errors.push(
                            parent_mismatch_error(state, stated->0, parent),
                        ),
                        ..state
                    },
                    false,
                )
            } else {
                (
                    place_label(
                        state,
                        SectionLabelView {
                            name: full_name(parent.name.val, sublabel.val),
                            visibility: Visibility::Object,
                            offset,
                        },
                    ),
                    true,
                )
            },
        },
    }
}

/// The characters that the end of a line of the listing is trimmed of.
pub open spec fn is_whitespace(character: char) -> bool {
    let code = character as u32;
    (0x09 <= code <= 0x0d) || code == 0x20 || code == 0x85 || code == 0xa0 || code == 0x1680 || (
    0x2000 <= code <= 0x200a) || code == 0x2028 || code == 0x2029 || code == 0x202f || code
        == 0x205f || code == 0x3000
}

/// A text without the whitespace at its end.
pub open spec fn trimmed_end(text: Seq<char>) -> Seq<char>
    decreases text.len(),
{
    if text.len() > 0 && is_whitespace(text.last()) {
        trimmed_end(text.drop_last())
    } else {
        text
    }
}

/// The text of a file from one byte up to another, without the whitespace
/// at its end; empty where there is no such text.
pub open spec fn excerpt(
    sources: Seq<SourceFileView>,
    file: Seq<char>,
    start: usize,
    end: usize,
) -> Seq<char> {
    match source_index(sources, file, 0) {
        Some(index) => match sources[index].contents {
            SourceTextView::Read(text) => if start <= end <= encode_utf8(text).len() {
                trimmed_end(text_of(encode_utf8(text).subrange(start as int, end as int)))
            } else {
                Seq::empty()
            },
            SourceTextView::Failed(_) => Seq::empty(),
        },
        None => Seq::empty(),
    }
}

/// Where the actions of the line end that `from` is in: at its end-of-line
/// action, or after the last action.
pub open spec fn line_end_index(program: Seq<ActionView>, from: int) -> int
    decreases program.len() - from,
{
    if from < 0 || from >= program.len() {
        from
    } else if program[from] is LineEnd {
        from
    } else {
        line_end_index(program, from + 1)
    }
}

pub proof fn lemma_line_end_index(program: Seq<ActionView>, from: int)
    requires
        0 <= from <= program.len(),
    ensures
        from <= line_end_index(program, from) <= program.len(),
    decreases program.len() - from,
{
    if from < program.len() && !(program[from] is LineEnd) {
        lemma_line_end_index(program, from + 1);
    }
}

/// The state after the start of a line.
pub open spec fn line_start_step(state: GeneratorView, start: usize) -> GeneratorView {
    GeneratorView {
        line_source_start: start,
        line_section_start: state.section().origin,
        ..state
    }
}

/// The state after the end of a line: the line is listed with the code
/// that it put, and the line that follows has no name for a macro yet.
pub open spec fn line_end_step(state: GeneratorView, end: usize) -> GeneratorView {
    GeneratorView {
        line_source_end: end,
        listing: state.listing.push(
            ListingView {
                location: Some(
                    (
                        state.current_section as usize,
                        state.line_section_start,
                        state.line_section_end,
                    ),
                ),
                code: excerpt(state.sources, state.file(), state.line_source_start, end),
            },
        ),
        macro_valid: false,
        ..state
    }
}

/// The state after the start of an included file.
pub open spec fn push_step(state: GeneratorView, name: Seq<char>) -> GeneratorView {
    GeneratorView {
        listing: state.listing.push(
            ListingView { location: None, code: "**** START INCLUDED FILE `"@ + name + "`"@ },
        ),
        include_stack: state.include_stack.push((name, state.line_source_end)),
        ..state
    }
}

/// The state after the end of an included file: the file that included it
/// goes on where it was left. The file that the assembler was started on
/// stays.
pub open spec fn pop_step(state: GeneratorView) -> GeneratorView {
    GeneratorView {
        listing: state.listing.push(
            ListingView {
                location: None,
                code: "**** END   INCLUDED FILE `"@ + state.include_stack.last().0 + "`"@,
            },
        ),
        include_stack: if state.include_stack.len() > 1 {
            state.include_stack.drop_last()
        } else {
            state.include_stack
        },
        line_source_start: state.include_stack.last().1,
        line_section_start: state.section().origin,
        ..state
    }
}

/// The state after an instruction: its error is added to the errors, and
/// the code of the line ends where the instruction put it.
pub open spec fn after_instruction(emitted: Emitted) -> GeneratorView {
    match emitted.result {
        Ok(count) => GeneratorView {
            line_section_end: (emitted.state.line_section_start + count) as usize,
            ..emitted.state
        },
        Err(error) => GeneratorView {
            errors: emitted.state.errors.push(error),
            line_section_end: emitted.state.section().origin,
            ..emitted.state
        },
    }
}

/// What one action makes of the state, and the action that comes next.
/// After an instruction, and after a label that is an error, the rest of
/// the line is passed over.
pub open spec fn action_step(state: GeneratorView, program: Seq<ActionView>, index: int) -> (
    GeneratorView,
    int,
) {
    match program[index] {
        ActionView::LineStart(start) => (line_start_step(state, start), index + 1),
        ActionView::LineEnd(end) => (line_end_step(state, end), index + 1),
        ActionView::PushInclude(name) => (push_step(state, name), index + 1),
        ActionView::PopInclude => (pop_step(state), index + 1),
        ActionView::Label(label) => {
            let placed = label_step(state, label);
            (
                placed.0,
                if placed.1 {
                    index + 1
                } else {
                    line_end_index(program, index + 1)
                },
            )
        },
        ActionView::Instruction(instruction) => (
            after_instruction(instruction_step(state, instruction)),
            line_end_index(program, index + 1),
        ),
    }
}

/// The state after the actions from `index` on.
pub open spec fn run_from(state: GeneratorView, program: Seq<ActionView>, index: int) -> GeneratorView
    decreases program.len() - index,
{
    if index < 0 || index >= program.len() {
        state
    } else {
        let step = action_step(state, program, index);
        if index < step.1 <= program.len() {
            run_from(step.0, program, step.1)
        } else {
            step.0
        }
    }
}

/// What code generation gives: the sections and the listing, or the errors.
pub open spec fn outcome_of(state: GeneratorView) -> Result<
    (Seq<SectionView>, Seq<ListingView>),
    Seq<AssemblerErrorView>,
> {
    if state.errors.len() > 0 {
        Err(state.errors)
    } else {
        Ok((state.object, state.listing))
    }
}

} // verus!
