//! The code generator: one pass over the actions of a program, which puts
//! code into sections, defines macros, and leaves the references to labels
//! for the relocation pass.

use crate::apple::{apple_bytes, apple_string, chars_of};
use crate::ast::{
    Action, ActionView, AddressMode, Instruction, Label, Location, Mnemonic, Modifier, Operand,
    Program, Spanned, Value, Visibility,
};
use crate::error::{AssemblerError, AssemblerErrorView};
use crate::opcodes::opcode;
use crate::section::{MEMORY_SIZE, Reference, Section, SectionLabel, SectionView};
use crate::semantics::{
    action_step, cpu_spec, dfb_spec, dfw_spec, drop_label, emit, equ_spec, excerpt, high_of,
    implied_spec, initial_state, insert_byte, insert_bytes, instruction_step, invalid_mode_error,
    is_whitespace, joined, label_step, lemma_insert_byte, lemma_insert_bytes, lemma_line_end_index,
    line_end_index, low_of, macro_defined_error, macro_of, narrowed, no_room_error, org_spec,
    outcome_of, parent_mismatch_error, place_label, refer, resolve_operand_spec, run_from, sct_spec,
    section_index, set_origin, trimmed_end, valid_mode_names, word_bytes,
    ActualValueView, Emitted, GeneratorView, ListingView, MacroView, ParentLabelView,
};
use crate::sources::{find_source, SourceFile, SourceText};
use crate::text::{copy_range, text_from_bytes};
use std::ops::Range;
use vstd::prelude::*;
use vstd::string::{StringExecFns, StrSliceExecFns};

verus! {

/// The sections that code is generated into.
pub type Object = Vec<Section>;

/// A constant defined with `equ`, and where it was defined.
#[derive(Debug, PartialEq)]
pub enum Macro {
    Byte(u8, Location),
    Word(u16, Location),
    String(String, Location),
}

impl DeepView for Macro {
    type V = MacroView;

    open spec fn deep_view(&self) -> MacroView {
        match self {
            Macro::Byte(byte, location) => MacroView::Byte(*byte, location.deep_view()),
            Macro::Word(word, location) => MacroView::Word(*word, location.deep_view()),
            Macro::String(string, location) => MacroView::String(string@, location.deep_view()),
        }
    }
}

/// A line of the listing: the section, the start and the end of its code,
/// and its text. A line without a place is a marker.
#[derive(Debug, PartialEq)]
pub struct Listing {
    pub location: Option<(usize, usize, usize)>,
    pub code: String,
}

impl DeepView for Listing {
    type V = ListingView;

    open spec fn deep_view(&self) -> ListingView {
        ListingView { location: self.location, code: self.code@ }
    }
}

/// The value of an operand once macros are looked up.
#[derive(Debug, PartialEq)]
pub enum ActualValue {
    Accumulator,
    Byte(u8),
    Word(u16),
    String(String),
    Reference(Reference),
    File,
}

impl DeepView for ActualValue {
    type V = ActualValueView;

    open spec fn deep_view(&self) -> ActualValueView {
        match self {
            ActualValue::Accumulator => ActualValueView::Accumulator,
            ActualValue::Byte(byte) => ActualValueView::Byte(*byte),
            ActualValue::Word(word) => ActualValueView::Word(*word),
            ActualValue::String(string) => ActualValueView::String(string@),
            ActualValue::Reference(reference) => ActualValueView::Reference(
                reference.deep_view(),
            ),
            ActualValue::File => ActualValueView::File,
        }
    }
}

impl Section {
    /// Puts a byte of code at the origin.
    pub(crate) fn put_byte(&mut self, byte: u8)
        requires
            old(self).wf(),
            old(self).origin < MEMORY_SIZE,
        ensures
            final(self).deep_view() == insert_byte(old(self).deep_view(), byte),
            final(self).wf(),
            old(self).tight() ==> final(self).tight(),
    {
        proof {
            lemma_insert_byte(self.deep_view(), byte, 0);
        }
        let offset = self.origin;
        if offset == 0 {
            self.lowest_origin = Some(0);
        }
        self.data[offset] = byte;
        self.origin = offset + 1;
        if offset == self.highest_origin {
            self.highest_origin = offset + 1;
        }
    }

    /// Puts bytes of code at the origin.
    pub(crate) fn put(&mut self, bytes: &[u8])
        requires
            old(self).wf(),
            old(self).origin + bytes.len() <= MEMORY_SIZE,
        ensures
            final(self).deep_view() == insert_bytes(old(self).deep_view(), bytes@),
            final(self).wf(),
            old(self).tight() ==> final(self).tight(),
    {
        proof {
            lemma_insert_bytes(self.deep_view(), bytes@);
        }
        let mut i: usize = 0;
        assert(bytes@.subrange(0, 0) =~= Seq::empty());
        while i < bytes.len()
            invariant
                i <= bytes.len(),
                old(self).wf(),
                old(self).origin + bytes.len() <= MEMORY_SIZE,
                self.wf(),
                self.deep_view() == insert_bytes(old(self).deep_view(), bytes@.subrange(0, i as int)),
            decreases bytes.len() - i,
        {
            proof {
                lemma_insert_bytes(old(self).deep_view(), bytes@.subrange(0, i as int));
                assert(bytes@.subrange(0, i + 1).drop_last() =~= bytes@.subrange(0, i as int));
            }
            self.put_byte(bytes[i]);
            i += 1;
        }
        assert(bytes@.subrange(0, i as int) =~= bytes@);
    }
}

fn char_is_whitespace(character: char) -> (white: bool)
    ensures
        white == is_whitespace(character),
{
    let code = character as u32;
    (0x09 <= code && code <= 0x0d) || code == 0x20 || code == 0x85 || code == 0xa0 || code
        == 0x1680 || (0x2000 <= code && code <= 0x200a) || code == 0x2028 || code == 0x2029
        || code == 0x202f || code == 0x205f || code == 0x3000
}

/// The text without the whitespace at its end.
fn trim_end(text: &str) -> (trimmed: String)
    ensures
        trimmed@ == trimmed_end(text@),
{
    let characters = chars_of(text);
    let mut end: usize = characters.len();
    assert(text@.subrange(0, end as int) =~= text@);
    while end > 0 && char_is_whitespace(characters[end - 1])
        invariant
            end <= characters.len(),
            characters@ == text@,
            trimmed_end(text@.subrange(0, end as int)) == trimmed_end(text@),
        decreases end,
    {
        assert(text@.subrange(0, end as int).drop_last() =~= text@.subrange(0, end - 1));
        end -= 1;
    }
    String::from_str(text.substring_char(0, end))
}

/// Strings joined by a separator.
pub fn join(parts: &Vec<String>, separator: &str) -> (text: String)
    ensures
        text@ == joined(parts.deep_view(), separator@),
{
    let mut text = String::new();
    let mut i: usize = 0;
    assert(parts.deep_view().subrange(0, 0) =~= Seq::empty());
    while i < parts.len()
        invariant
            i <= parts.len(),
            text@ == joined(parts.deep_view().subrange(0, i as int), separator@),
        decreases parts.len() - i,
    {
        let ghost before = parts.deep_view().subrange(0, i as int);
        let ghost after = parts.deep_view().subrange(0, i + 1);
        assert(after.drop_last() =~= before);
        assert(after.last() == parts[i as int]@);
        if i > 0 {
            text.append(separator);
        }
        text.append(parts[i].as_str());
        assert(i == 0 ==> text@ =~= parts[i as int]@);
        i += 1;
    }
    assert(parts.deep_view().subrange(0, i as int) =~= parts.deep_view());
    text
}

/// The model of the result of handling an instruction.
pub open spec fn count_view(result: Result<usize, AssemblerError>) -> Result<
    usize,
    AssemblerErrorView,
> {
    match result {
        Ok(count) => Ok(count),
        Err(error) => Err(error.deep_view()),
    }
}

/// The model of the parent of the sublabels that follow.
pub open spec fn parent_view(parent: Option<(Spanned<String>, String)>) -> Option<ParentLabelView> {
    match parent {
        Some(parts) => Some(ParentLabelView { name: parts.0.deep_view(), file: parts.1@ }),
        None => None,
    }
}

/// The code generator: the program to assemble and the state of assembling
/// it.
pub struct GeneratorContext<'c> {
    /// The program to assemble.
    program: Program,
    /// Whether or not to assemble in binary mode.
    binary: bool,
    /// The source files, from which the listing takes its text.
    sources: &'c Vec<SourceFile>,
    /// The object being built.
    object: Vec<Section>,
    /// The index into the object of the section being assembled.
    current_section: usize,
    /// Where in the source code the current line starts and ends.
    current_line_source_start: usize,
    current_line_source_end: usize,
    /// Where in the section the code of the current line starts and ends.
    current_line_section_start: usize,
    current_line_section_end: usize,
    /// The files being included. The last element is the current file.
    include_stack: Vec<(String, usize)>,
    /// The most recent parent label, under which sublabels are put.
    last_parent_label: Option<(Spanned<String>, String)>,
    /// Macros defined during generation.
    macros: Vec<(String, Macro)>,
    /// A label appeared on this line so a macro may be created.
    macro_valid: bool,
    /// Errors found during code generation.
    errors: Vec<AssemblerError>,
    listing: Vec<Listing>,
}

impl<'c> View for GeneratorContext<'c> {
    type V = GeneratorView;

    closed spec fn view(&self) -> GeneratorView {
        GeneratorView {
            binary: self.binary,
            sources: self.sources.deep_view(),
            object: self.object.deep_view(),
            current_section: self.current_section as int,
            line_source_start: self.current_line_source_start,
            line_source_end: self.current_line_source_end,
            line_section_start: self.current_line_section_start,
            line_section_end: self.current_line_section_end,
            include_stack: self.include_stack.deep_view(),
            last_parent_label: parent_view(self.last_parent_label),
            macros: self.macros.deep_view(),
            macro_valid: self.macro_valid,
            errors: self.errors.deep_view(),
            listing: self.listing.deep_view(),
        }
    }
}

impl<'c> GeneratorContext<'c> {
    /// The actions of the program to assemble.
    pub closed spec fn program(&self) -> Seq<ActionView> {
        self.program.deep_view()
    }

    /// Create a new context for assembling a program. `sources` holds the
    /// files of the program by their names, `top_file_name` among them.
    pub fn new(
        program: Program,
        binary: bool,
        top_file_name: String,
        sources: &'c Vec<SourceFile>,
    ) -> (generator: Self)
        ensures
            generator@ == initial_state(binary, top_file_name@, sources.deep_view()),
            generator.program() == program.deep_view(),
            generator@.wf(),
    {
        let mut object: Vec<Section> = Vec::new();
        object.push(Section::new(String::from_str("default")));
        let mut include_stack: Vec<(String, usize)> = Vec::new();
        include_stack.push((top_file_name, 0));
        let generator = GeneratorContext {
            program,
            binary,
            sources,
            object,
            current_section: 0,
            current_line_source_start: 0,
            current_line_source_end: 0,
            current_line_section_start: 0,
            current_line_section_end: 0,
            include_stack,
            last_parent_label: None,
            macros: Vec::new(),
            macro_valid: false,
            errors: Vec::new(),
            listing: Vec::new(),
        };
        proof {
            let state = initial_state(binary, top_file_name@, sources.deep_view());
            assert(generator@.object =~= state.object);
            assert(generator@.include_stack =~= state.include_stack);
            assert(generator@.macros =~= state.macros);
            assert(generator@.errors =~= state.errors);
            assert(generator@.listing =~= state.listing);
        }
        generator
    }

    /// The name of the file that is being read.
    fn file_name(&self) -> (name: &String)
        requires
            self@.wf(),
        ensures
            name@ == self@.file(),
    {
        &self.include_stack[self.include_stack.len() - 1].0
    }

    /// A place in the file that is being read.
    fn location(&self, span: &Range<usize>) -> (location: Location)
        requires
            self@.wf(),
        ensures
            location.deep_view() == self@.location(*span),
    {
        Location { span: span.clone(), file_name: self.file_name().clone() }
    }

    /// An error at a place in the file that is being read.
    fn error(&self, message: &str, span: &Range<usize>) -> (error: AssemblerError)
        requires
            self@.wf(),
        ensures
            error.deep_view() == self@.error(message@, *span),
    {
        AssemblerError::at(
            String::from_str(message),
            span.start,
            span.end,
            self.file_name(),
            None,
            None,
        )
    }

    /// The same, with a note beside the place.
    fn noted_error(&self, message: &str, span: &Range<usize>, note: &str) -> (error:
        AssemblerError)
        requires
            self@.wf(),
        ensures
            error.deep_view() == self@.noted_error(message@, *span, note@),
    {
        AssemblerError::at(
            String::from_str(message),
            span.start,
            span.end,
            self.file_name(),
            Some(String::from_str(note)),
            None,
        )
    }

    /// The error for code that the section has no room for.
    fn no_room(&self, span: &Range<usize>) -> (error: AssemblerError)
        requires
            self@.wf(),
        ensures
            error.deep_view() == no_room_error(self@, *span),
    {
        self.error("The section has no room for this code", span)
    }

    /// The origin of the current section.
    fn origin(&self) -> (origin: usize)
        requires
            self@.wf(),
        ensures
            origin == self@.section().origin,
            origin <= MEMORY_SIZE,
    {
        assert(self@.object[self.current_section as int].wf());
        self.object[self.current_section].origin
    }

    /// Whether the current section has room for that many bytes of code.
    fn has_room(&self, count: usize) -> (room: bool)
        requires
            self@.wf(),
        ensures
            room == self@.has_room(count as int),
    {
        count <= MEMORY_SIZE && self.origin() <= MEMORY_SIZE - count
    }

    /// Puts bytes of code into the current section.
    fn emit(&mut self, bytes: &[u8])
        requires
            old(self)@.wf(),
            old(self)@.has_room(bytes.len() as int),
        ensures
            final(self)@ == emit(old(self)@, bytes@),
            final(self)@.wf(),
    {
        let current = self.current_section;
        assert(self@.object[current as int].wf());
        self.object[current].put(bytes);
        proof {
            assert(self@.object =~= old(self)@.object.update(
                current as int,
                insert_bytes(old(self)@.section(), bytes@),
            ));
            assert forall|i: int| 0 <= i < self@.object.len() implies (#[trigger] self@.object[i]).wf()
                && self@.object[i].tight() by {
                assert(old(self)@.object[i].wf());
            }
        }
    }

    /// Puts a byte of code into the current section.
    fn insert_byte(&mut self, byte: u8)
        requires
            old(self)@.wf(),
            old(self)@.has_room(1),
        ensures
            final(self)@ == emit(old(self)@, seq![byte]),
            final(self)@.wf(),
    {
        let mut bytes: Vec<u8> = Vec::new();
        bytes.push(byte);
        assert(bytes@ =~= seq![byte]);
        self.emit(bytes.as_slice());
    }

    /// Puts a word of code into the current section, its low byte first.
    fn insert_word(&mut self, word: u16)
        requires
            old(self)@.wf(),
            old(self)@.has_room(2),
        ensures
            final(self)@ == emit(old(self)@, word_bytes(word)),
            final(self)@.wf(),
    {
        let mut bytes: Vec<u8> = Vec::new();
        bytes.push((word % 256) as u8);
        bytes.push((word / 256) as u8);
        assert(bytes@ =~= word_bytes(word));
        self.emit(bytes.as_slice());
    }

    /// Adds a reference to the current section.
    fn refer(&mut self, reference: Reference)
        requires
            old(self)@.wf(),
            old(self)@.section().image_start() <= reference.offset,
            reference.offset + reference.deep_view().width() <= old(
                self,
            )@.section().highest_origin,
        ensures
            final(self)@ == refer(old(self)@, reference.deep_view()),
            final(self)@.wf(),
    {
        let current = self.current_section;
        let ghost before = self.object[current as int].deep_view();
        assert(self@.object[current as int].wf());
        self.object[current].references.push(reference);
        proof {
            let after = SectionView {
                references: before.references.push(reference.deep_view()),
                ..before
            };
            assert(self.object[current as int].references.deep_view() =~= before.references.push(
                reference.deep_view(),
            ));
            assert(self@.object =~= old(self)@.object.update(current as int, after));
            assert(after.wf());
            assert forall|i: int| 0 <= i < self@.object.len() implies (#[trigger] self@.object[i]).wf()
                && self@.object[i].tight() by {
                assert(old(self)@.object[i].wf());
            }
        }
    }

    /// Places a label in the current section.
    fn place_label(&mut self, label: SectionLabel)
        requires
            old(self)@.wf(),
            label.offset <= MEMORY_SIZE,
        ensures
            final(self)@ == place_label(old(self)@, label.deep_view()),
            final(self)@.wf(),
    {
        let current = self.current_section;
        let ghost before = self.object[current as int].deep_view();
        assert(self@.object[current as int].wf());
        self.object[current].labels.push(label);
        proof {
            let after = SectionView { labels: before.labels.push(label.deep_view()), ..before };
            assert(self.object[current as int].labels.deep_view() =~= before.labels.push(
                label.deep_view(),
            ));
            assert(self@.object =~= old(self)@.object.update(current as int, after));
            assert(after.wf());
            assert forall|i: int| 0 <= i < self@.object.len() implies (#[trigger] self@.object[i]).wf()
                && self@.object[i].tight() by {
                assert(old(self)@.object[i].wf());
            }
        }
    }

    /// Adds an error to the errors.
    fn push_error(&mut self, error: AssemblerError)
        ensures
            final(self)@ == (GeneratorView {
                errors: old(self)@.errors.push(error.deep_view()),
                ..old(self)@
            }),
    {
        self.errors.push(error);
        assert(self.errors.deep_view() =~= old(self).errors.deep_view().push(error.deep_view()));
    }

    /// Adds a line to the listing.
    fn push_listing(&mut self, line: Listing)
        ensures
            final(self)@ == (GeneratorView {
                listing: old(self)@.listing.push(line.deep_view()),
                ..old(self)@
            }),
    {
        self.listing.push(line);
        assert(self.listing.deep_view() =~= old(self).listing.deep_view().push(
            line.deep_view(),
        ));
    }

    /// Finds the macro of a name.
    fn find_macro(&self, name: &String) -> (found: Option<usize>)
        ensures
            match found {
                Some(index) => index < self.macros.len() && macro_of(self@.macros, name@, 0)
                    == Some(self.macros[index as int].1.deep_view()),
                None => macro_of(self@.macros, name@, 0) is None,
            },
    {
        let mut i: usize = 0;
        while i < self.macros.len()
            invariant
                i <= self.macros.len(),
                macro_of(self@.macros, name@, i as int) == macro_of(self@.macros, name@, 0),
            decreases self.macros.len() - i,
        {
            assert(self@.macros[i as int] == self.macros[i as int].deep_view());
            if self.macros[i].0 == *name {
                return Some(i);
            }
            i += 1;
        }
        None
    }

    /// A word under an optional modifier: a modifier takes one byte of it.
    fn modify(word: u16, modifier: Option<Modifier>, mode: AddressMode) -> (resolved: (
        ActualValue,
        AddressMode,
    ))
        ensures
            (resolved.0.deep_view(), resolved.1) == match modifier {
                Some(taken) => (
                    ActualValueView::Byte(
                        match taken {
                            Modifier::HighByte => high_of(word),
                            Modifier::LowByte => low_of(word),
                        },
                    ),
                    narrowed(mode),
                ),
                None => (ActualValueView::Word(word), mode),
            },
    {
        let narrow = match mode {
            AddressMode::Absolute => AddressMode::Zeropage,
            AddressMode::AbsoluteX => AddressMode::ZeropageX,
            AddressMode::AbsoluteY => AddressMode::ZeropageY,
            _ => mode,
        };
        let byte: u8 = match modifier {
            Some(Modifier::HighByte) => (word / 256) as u8,
            Some(Modifier::LowByte) => (word % 256) as u8,
            None => {
                return (ActualValue::Word(word), mode);
            },
        };
        (ActualValue::Byte(byte), narrow)
    }

    /// Get the value of an operand, resolving a reference to a macro if
    /// there is one of its name, and its address mode.
    pub fn resolve_operand(&self, operand: &Spanned<Operand>, branch: bool) -> (resolved: (
        ActualValue,
        AddressMode,
    ))
        requires
            self@.wf(),
        ensures
            (resolved.0.deep_view(), resolved.1) == resolve_operand_spec(
                self@,
                operand.deep_view(),
                branch,
            ),
    {
        let mode = operand.val.address_mode(branch);
        let narrow = match mode {
            AddressMode::Absolute => AddressMode::Zeropage,
            AddressMode::AbsoluteX => AddressMode::ZeropageX,
            AddressMode::AbsoluteY => AddressMode::ZeropageY,
            _ => mode,
        };
        let modifier: Option<Modifier> = match &operand.val.modifier {
            Some(node) => Some(node.val),
            None => None,
        };
        match &operand.val.value.val {
            Value::Reference(symbol) => {
                match self.find_macro(symbol) {
                    Some(index) => {
                        match &self.macros[index].1 {
                            Macro::Byte(byte, _) => {
                                if let AddressMode::Indirect = narrow {
                                    (ActualValue::Word(*byte as u16), narrow)
                                } else {
                                    (ActualValue::Byte(*byte), narrow)
                                }
                            },
                            Macro::Word(word, _) => Self::modify(*word, modifier, mode),
                            Macro::String(string, _) => (ActualValue::String(string.clone()), mode),
                        }
                    },
                    None => {
                        let kept: Option<Spanned<Modifier>> = match &operand.val.modifier {
                            Some(node) => Some(Spanned { val: node.val, span: node.span.clone() }),
                            None => None,
                        };
                        (
                            ActualValue::Reference(
                                Reference {
                                    name: symbol.clone(),
                                    offset: self.origin() + 1,
                                    modifier: kept,
                                    branch,
                                    location: self.location(&operand.span),
                                },
                            ),
                            if modifier.is_some() {
                                narrow
                            } else {
                                mode
                            },
                        )
                    },
                }
            },
            Value::Accumulator => (ActualValue::Accumulator, mode),
            Value::Byte(byte) => {
                if let AddressMode::Indirect = mode {
                    (ActualValue::Word(*byte as u16), mode)
                } else {
                    (ActualValue::Byte(*byte), mode)
                }
            },
            Value::Word(word) => Self::modify(*word, modifier, mode),
            Value::String(string) => (ActualValue::String(string.clone()), mode),
            Value::Include(_) => (ActualValue::File, mode),
        }
    }

    /// The error for a mnemonic in an address mode in which it has no
    /// opcode.
    fn invalid_mode(&self, mnemonic: Mnemonic, mode: AddressMode, span: &Range<usize>) -> (error:
        AssemblerError)
        requires
            self@.wf(),
        ensures
            error.deep_view() == invalid_mode_error(self@, mnemonic, mode, *span),
    {
        let mut names: Vec<String> = Vec::new();
        let mut i: usize = 0;
        assert(names.deep_view() =~= valid_mode_names(mnemonic, 0));
        while i < 12
            invariant
                i <= 12,
                names.deep_view() == valid_mode_names(mnemonic, i as int),
            decreases 12 - i,
        {
            let candidate = AddressMode::at(i);
            let ghost before = names.deep_view();
            if opcode(mnemonic, candidate).is_some() {
                let name = candidate.string_rep(mnemonic);
                names.push(name);
                assert(names.deep_view() =~= before.push(candidate.spec_string_rep(mnemonic)));
            }
            i += 1;
        }
        let mut message = mode.string_rep(mnemonic);
        message.append(" address mode is invalid for instruction `");
        let shown = mnemonic.to_string();
        message.append(shown.as_str());
        message.append("`");
        let mut help = String::from_str("Valid address modes are:\n    ");
        let list = join(&names, "\n    ");
        help.append(list.as_str());
        AssemblerError::at(message, span.start, span.end, self.file_name(), None, Some(help))
    }

    /// An instruction without an operand.
    fn handle_implied_instruction(&mut self, mnemonic: Mnemonic, instruction_span: &Range<usize>) -> (result:
        Result<usize, AssemblerError>)
        requires
            old(self)@.wf(),
        ensures
            (Emitted { state: final(self)@, result: count_view(result) }) == implied_spec(
                old(self)@,
                mnemonic,
                *instruction_span,
            ),
            final(self)@.wf(),
    {
        match opcode(mnemonic, AddressMode::Implied) {
            Some(byte) => {
                if self.has_room(1) {
                    self.insert_byte(byte);
                    Ok(1)
                } else {
                    Err(self.no_room(instruction_span))
                }
            },
            None => Err(self.invalid_mode(mnemonic, AddressMode::Implied, instruction_span)),
        }
    }

    /// `dfb`: defines bytes.
    fn handle_dfb(&mut self, operand: ActualValue, span: &Range<usize>) -> (result: Result<
        usize,
        AssemblerError,
    >)
        requires
            old(self)@.wf(),
            operand matches ActualValue::Reference(reference) ==> reference.offset == old(
                self,
            )@.section().origin + 1,
        ensures
            (Emitted { state: final(self)@, result: count_view(result) }) == dfb_spec(
                old(self)@,
                operand.deep_view(),
                *span,
            ),
            final(self)@.wf(),
    {
        match operand {
            ActualValue::Byte(byte) => {
                if self.has_room(1) {
                    self.insert_byte(byte);
                    Ok(1)
                } else {
                    Err(self.no_room(span))
                }
            },
            ActualValue::String(string) => {
                let length = string.as_str().unicode_len();
                if span.start <= usize::MAX - 2 && length <= usize::MAX - 2 - span.start {
                    match apple_string(&string, self.location(span)) {
                        Ok(characters) => {
                            let mut bytes: Vec<u8> = Vec::new();
                            let mut i: usize = 0;
                            while i < characters.len()
                                invariant
                                    i <= characters.len(),
                                    bytes@ == apple_bytes(characters@).subrange(0, i as int),
                                decreases characters.len() - i,
                            {
                                bytes.push(characters[i].0);
                                i += 1;
                                assert(bytes@ =~= apple_bytes(characters@).subrange(0, i as int));
                            }
                            assert(bytes@ =~= apple_bytes(characters@));
                            if self.has_room(bytes.len()) {
                                self.emit(bytes.as_slice());
                                Ok(bytes.len())
                            } else {
                                Err(self.no_room(span))
                            }
                        },
                        Err(error) => Err(error),
                    }
                } else {
                    Err(self.no_room(span))
                }
            },
            ActualValue::Reference(reference) => {
                if reference.modifier.is_some() {
                    if self.has_room(1) {
                        let ghost begin = self@;
                        self.insert_byte(0);
                        proof {
                            lemma_insert_bytes(begin.section(), seq![0u8]);
                        }
                        let Reference { name, offset, modifier, branch, location } = reference;
                        self.refer(Reference { name, offset: offset - 1, modifier, branch, location });
                        Ok(1)
                    } else {
                        Err(self.no_room(span))
                    }
                } else {
                    Err(
                        self.noted_error(
                            "The `dfb` directive expects a byte operand",
                            span,
                            "Referenced symbol is assumed to be a word",
                        ),
                    )
                }
            },
            _ => Err(self.error("The `dfb` directive expects a byte operand", span)),
        }
    }

    /// `dfw`: defines a word.
    fn handle_dfw(&mut self, operand: ActualValue, span: &Range<usize>) -> (result: Result<
        usize,
        AssemblerError,
    >)
        requires
            old(self)@.wf(),
            operand matches ActualValue::Reference(reference) ==> reference.offset == old(
                self,
            )@.section().origin + 1 && !reference.branch,
        ensures
            (Emitted { state: final(self)@, result: count_view(result) }) == dfw_spec(
                old(self)@,
                operand.deep_view(),
                *span,
            ),
            final(self)@.wf(),
    {
        match operand {
            ActualValue::Word(word) => {
                if self.has_room(2) {
                    self.insert_word(word);
                    Ok(2)
                } else {
                    Err(self.no_room(span))
                }
            },
            ActualValue::Reference(reference) => {
                match &reference.modifier {
                    Some(modifier) => Err(
                        self.noted_error(
                            "The `dfw` directive expects a word operand",
                            &modifier.span,
                            "Modifier turns this word into a byte",
                        ),
                    ),
                    None => {
                        if self.has_room(2) {
                            let mut bytes: Vec<u8> = Vec::new();
                            bytes.push(0);
                            bytes.push(0);
                            assert(bytes@ =~= seq![0u8, 0u8]);
                            let ghost begin = self@;
                            self.emit(bytes.as_slice());
                            proof {
                                lemma_insert_bytes(begin.section(), seq![0u8, 0u8]);
                            }
                            let Reference { name, offset, modifier, branch, location } = reference;
                            self.refer(
                                Reference { name, offset: offset - 1, modifier, branch, location },
                            );
                            Ok(2)
                        } else {
                            Err(self.no_room(span))
                        }
                    },
                }
            },
            _ => Err(self.error("The `dfw` directive expects a word operand", span)),
        }
    }
}

impl<'c> GeneratorContext<'c> {
    /// Takes the label that was placed last back.
    fn pop_label(&mut self) -> (label: Option<SectionLabel>)
        requires
            old(self)@.wf(),
        ensures
            final(self)@.wf(),
            match label {
                Some(taken) => old(self)@.section().labels.len() > 0 && taken.deep_view() == old(
                    self,
                )@.section().labels.last() && final(self)@ == drop_label(old(self)@),
                None => old(self)@.section().labels.len() == 0 && final(self)@ == old(self)@,
            },
    {
        let current = self.current_section;
        let ghost before = self.object[current as int].deep_view();
        assert(self@.object[current as int].wf());
        let label = self.object[current].labels.pop();
        proof {
            if label is Some {
                let after = SectionView { labels: before.labels.drop_last(), ..before };
                assert(self.object[current as int].labels.deep_view() =~= before.labels.drop_last());
                assert(self@.object =~= old(self)@.object.update(current as int, after));
                assert(after.wf());
                assert(label->0.deep_view() == before.labels.last());
            } else {
                assert(self.object[current as int].labels.deep_view() =~= before.labels);
                assert(self@.object =~= old(self)@.object);
            }
            assert forall|i: int| 0 <= i < self@.object.len() implies (#[trigger] self@.object[i]).wf()
                && self@.object[i].tight() by {
                assert(old(self)@.object[i].wf());
            }
        }
        label
    }

    /// Adds a macro to the macros.
    fn define(&mut self, name: String, value: Macro)
        ensures
            final(self)@ == (GeneratorView {
                macros: old(self)@.macros.push((name@, value.deep_view())),
                ..old(self)@
            }),
    {
        self.macros.push((name, value));
        assert(self.macros.deep_view() =~= old(self).macros.deep_view().push(
            (name@, value.deep_view()),
        ));
    }

    /// `equ`: makes a macro of the top label of the line.
    fn create_macro(&mut self, operand: ActualValue, instruction_span: &Range<usize>) -> (result:
        Result<usize, AssemblerError>)
        requires
            old(self)@.wf(),
        ensures
            (Emitted { state: final(self)@, result: count_view(result) }) == equ_spec(
                old(self)@,
                operand.deep_view(),
                *instruction_span,
            ),
            final(self)@.wf(),
    {
        if !self.macro_valid {
            return Err(self.error("A name is not present for this macro", instruction_span));
        }
        let ghost begin = self@;
        let label = match self.pop_label() {
            Some(label) => label,
            None => {
                return Err(self.error("A name is not present for this macro", instruction_span));
            },
        };
        let macro_name = label.name;
        let location = self.location(instruction_span);
        assert(self@.macros == begin.macros);
        assert(self@.file() == begin.file());
        match self.find_macro(&macro_name) {
            Some(index) => {
                let mut message = String::from_str("The macro `");
                message.append(macro_name.as_str());
                message.append("` has already been defined");
                let first = match &self.macros[index].1 {
                    Macro::Byte(_, location) => location.duplicate(),
                    Macro::Word(_, location) => location.duplicate(),
                    Macro::String(_, location) => location.duplicate(),
                };
                let mut labels: Vec<(Location, Option<String>)> = Vec::new();
                labels.push((location, None));
                labels.push((first, Some(String::from_str("Already defined here"))));
                let error = AssemblerError { message, labels, help: None };
                assert(error.labels.deep_view() =~= macro_defined_error(
                    begin,
                    macro_name@,
                    *instruction_span,
                    self.macros[index as int].1.deep_view().location(),
                ).labels);
                Err(error)
            },
            None => {
                match operand {
                    ActualValue::Byte(byte) => {
                        self.define(macro_name, Macro::Byte(byte, location));
                        Ok(0)
                    },
                    ActualValue::Word(word) => {
                        self.define(macro_name, Macro::Word(word, location));
                        Ok(0)
                    },
                    ActualValue::String(string) => {
                        self.define(macro_name, Macro::String(string, location));
                        Ok(0)
                    },
                    _ => Err(
                        self.error(
                            "The `equ` directive expects a byte or word operand",
                            instruction_span,
                        ),
                    ),
                }
            },
        }
    }

    /// `org`: sets the origin of the current section.
    pub fn change_origin(&mut self, operand: ActualValue, instruction_span: &Range<usize>) -> (result:
        Result<usize, AssemblerError>)
        requires
            old(self)@.wf(),
        ensures
            (Emitted { state: final(self)@, result: count_view(result) }) == org_spec(
                old(self)@,
                operand.deep_view(),
                *instruction_span,
            ),
            final(self)@.wf(),
    {
        if !self.binary {
            return Err(
                self.error("The `org` directive cannot be used in object mode", instruction_span),
            );
        }
        match operand {
            ActualValue::Word(word) => {
                let current = self.current_section;
                let target = word as usize;
                let ghost before = self.object[current as int].deep_view();
                assert(self@.object[current as int].wf());
                assert(self@.object[current as int].tight());
                if target > self.object[current].highest_origin {
                    self.object[current].highest_origin = target;
                }
                self.object[current].origin = target;
                self.current_line_section_start = target;
                let lower = match self.object[current].lowest_origin {
                    Some(lowest) => target < lowest,
                    None => true,
                };
                if lower {
                    self.object[current].lowest_origin = Some(target);
                }
                proof {
                    let after = set_origin(before, target);
                    assert(self@.object =~= old(self)@.object.update(current as int, after));
                    assert(after.wf());
                    assert(after.tight());
                    assert forall|i: int| 0 <= i < self@.object.len() implies (
                    #[trigger] self@.object[i]).wf() && self@.object[i].tight() by {
                        assert(old(self)@.object[i].wf());
                    }
                }
                Ok(0)
            },
            _ => Err(self.error("The `org` directive expects a word operand", instruction_span)),
        }
    }

    /// Finds the section of a name.
    fn find_section(&self, name: &String) -> (found: Option<usize>)
        ensures
            match found {
                Some(index) => index < self.object.len() && section_index(
                    self@.object,
                    name@,
                    0,
                ) == Some(index as int),
                None => section_index(self@.object, name@, 0) is None,
            },
    {
        let mut i: usize = 0;
        while i < self.object.len()
            invariant
                i <= self.object.len(),
                section_index(self@.object, name@, i as int) == section_index(
                    self@.object,
                    name@,
                    0,
                ),
            decreases self.object.len() - i,
        {
            assert(self@.object[i as int] == self.object[i as int].deep_view());
            if self.object[i].name == *name {
                return Some(i);
            }
            i += 1;
        }
        None
    }

    /// `sct`: makes the section of a name the current one.
    pub fn change_section(&mut self, operand: ActualValue, instruction_span: &Range<usize>) -> (result:
        Result<usize, AssemblerError>)
        requires
            old(self)@.wf(),
        ensures
            (Emitted { state: final(self)@, result: count_view(result) }) == sct_spec(
                old(self)@,
                operand.deep_view(),
                *instruction_span,
            ),
            final(self)@.wf(),
    {
        if self.binary {
            return Err(
                self.error("The `sct` directive is not allowed in binary mode", instruction_span),
            );
        }
        match operand {
            ActualValue::String(name) => {
                match self.find_section(&name) {
                    Some(index) => {
                        self.current_section = index;
                        Ok(0)
                    },
                    None => {
                        if self.object.len() == 1 && self.object[0].origin == 0 {
                            let ghost before = self.object[0].deep_view();
                            assert(self@.object[0].wf());
                            assert(self@.object[0].tight());
                            self.object[0].name = name;
                            proof {
                                let after = SectionView { name: name@, ..before };
                                assert(self@.object =~= old(self)@.object.update(0, after));
                                assert(after.wf());
                                assert(after.tight());
                            }
                            Ok(0)
                        } else {
                            self.current_section = self.object.len();
                            let section = Section::new(name);
                            self.object.push(section);
                            proof {
                                assert(self@.object =~= old(self)@.object.push(
                                    SectionView::empty(name@),
                                ));
                                assert forall|i: int| 0 <= i < self@.object.len() implies (
                                #[trigger] self@.object[i]).wf() && self@.object[i].tight() by {
                                    if i < old(self)@.object.len() {
                                        assert(old(self)@.object[i].wf());
                                    }
                                }
                            }
                            Ok(0)
                        }
                    },
                }
            },
            _ => Err(self.error("The `sct` directive expects a string operand", instruction_span)),
        }
    }

    /// An instruction of the processor: its opcode and its operand.
    fn handle_cpu_instruction(
        &mut self,
        mnemonic: Mnemonic,
        mode: AddressMode,
        operand: ActualValue,
        span: &Range<usize>,
    ) -> (result: Result<usize, AssemblerError>)
        requires
            old(self)@.wf(),
            operand matches ActualValue::Reference(reference) ==> reference.offset == old(
                self,
            )@.section().origin + 1 && reference.branch == mnemonic.spec_is_branch(),
        ensures
            (Emitted { state: final(self)@, result: count_view(result) }) == cpu_spec(
                old(self)@,
                mnemonic,
                mode,
                operand.deep_view(),
                *span,
            ),
            final(self)@.wf(),
    {
        let byte = match opcode(mnemonic, mode) {
            Some(byte) => byte,
            None => {
                return Err(self.invalid_mode(mnemonic, mode, span));
            },
        };
        let branch = mnemonic.is_branch();
        let width: usize = match &operand {
            ActualValue::Byte(_) => 1,
            ActualValue::Word(_) => 2,
            ActualValue::Reference(reference) => if reference.modifier.is_some() || branch {
                1
            } else {
                2
            },
            ActualValue::Accumulator => 0,
            _ => {
                return Err(
                    self.error(
                        "String operands are only allowed for the `dfb` and `inl` directives",
                        span,
                    ),
                );
            },
        };
        if !self.has_room(1 + width) {
            return Err(self.no_room(span));
        }
        let ghost begin = self@;
        self.insert_byte(byte);
        proof {
            lemma_insert_bytes(begin.section(), seq![byte]);
            assert(self@.section().origin == begin.section().origin + 1);
            assert(self@.file() == begin.file());
        }
        match operand {
            ActualValue::Byte(byte) => {
                self.insert_byte(byte);
                Ok(2)
            },
            ActualValue::Word(word) => {
                self.insert_word(word);
                Ok(3)
            },
            ActualValue::Reference(reference) => {
                let short = reference.modifier.is_some() || branch;
                let ghost coded = self@;
                if short {
                    self.insert_byte(0);
                    proof {
                        lemma_insert_bytes(coded.section(), seq![0u8]);
                    }
                    self.refer(reference);
                    Ok(2)
                } else {
                    self.insert_word(0);
                    proof {
                        assert(word_bytes(0) =~= seq![0u8, 0u8]);
                        lemma_insert_bytes(coded.section(), seq![0u8, 0u8]);
                    }
                    self.refer(reference);
                    Ok(3)
                }
            },
            _ => Ok(1),
        }
    }

    /// Handles an instruction: a directive does what it is for, and an
    /// instruction of the processor is encoded. Returns how many bytes of
    /// code were put.
    pub fn handle_instruction(&mut self, instruction: &Spanned<Instruction>) -> (result: Result<
        usize,
        AssemblerError,
    >)
        requires
            old(self)@.wf(),
        ensures
            (Emitted { state: final(self)@, result: count_view(result) }) == instruction_step(
                old(self)@,
                instruction.deep_view(),
            ),
            final(self)@.wf(),
    {
        let mnemonic = instruction.val.mnemonic.val;
        match &instruction.val.operand {
            None => self.handle_implied_instruction(mnemonic, &instruction.span),
            Some(operand) => {
                let (value, mode) = self.resolve_operand(operand, mnemonic.is_branch());
                match mnemonic {
                    Mnemonic::Dfb => self.handle_dfb(value, &operand.span),
                    Mnemonic::Dfw => self.handle_dfw(value, &operand.span),
                    Mnemonic::Equ => self.create_macro(value, &instruction.span),
                    Mnemonic::Org => self.change_origin(value, &instruction.span),
                    Mnemonic::Sct => self.change_section(value, &instruction.span),
                    _ => self.handle_cpu_instruction(mnemonic, mode, value, &operand.span),
                }
            },
        }
    }

    /// The error for a sublabel whose stated parent is not the parent.
    fn parent_mismatch(&self, stated: &Spanned<String>, parent: &(Spanned<String>, String)) -> (error:
        AssemblerError)
        requires
            self@.wf(),
        ensures
            error.deep_view() == parent_mismatch_error(
                self@,
                stated.deep_view(),
                ParentLabelView { name: parent.0.deep_view(), file: parent.1@ },
            ),
    {
        let mut found = String::from_str("Found `");
        found.append(stated.val.as_str());
        found.append("`");
        let mut expected = String::from_str("Expected `");
        expected.append(parent.0.val.as_str());
        expected.append("`");
        let mut help = String::from_str("Change `");
        help.append(stated.val.as_str());
        help.append("` to `");
        help.append(parent.0.val.as_str());
        help.append("`");
        let mut labels: Vec<(Location, Option<String>)> = Vec::new();
        labels.push((self.location(&stated.span), Some(found)));
        labels.push(
            (
                Location { span: parent.0.span.clone(), file_name: parent.1.clone() },
                Some(expected),
            ),
        );
        let error = AssemblerError {
            message: String::from_str(
                "Explicit parent label does not match most recent parent label",
            ),
            labels,
            help: Some(help),
        };
        assert(error.labels.deep_view() =~= parent_mismatch_error(
            self@,
            stated.deep_view(),
            ParentLabelView { name: parent.0.deep_view(), file: parent.1@ },
        ).labels);
        error
    }

    /// Places a label at the origin of the current section. A sublabel
    /// without its parent is an error, which is added to the errors.
    pub fn handle_label(&mut self, spanned_label: &Spanned<Label>) -> (result: Result<(), ()>)
        requires
            old(self)@.wf(),
        ensures
            (final(self)@, result is Ok) == label_step(old(self)@, spanned_label.deep_view()),
            final(self)@.wf(),
    {
        let offset = self.origin();
        match &spanned_label.val {
            Label::Top(top_label) => {
                self.macro_valid = true;
                let file = self.file_name().clone();
                self.last_parent_label = Some(
                    (
                        Spanned { val: top_label.name.clone(), span: spanned_label.span.clone() },
                        file,
                    ),
                );
                self.place_label(
                    SectionLabel {
                        name: top_label.name.clone(),
                        visibility: top_label.visibility,
                        offset,
                    },
                );
                Ok(())
            },
            Label::Sub(parts) => {
                let named: Result<String, AssemblerError> = match &self.last_parent_label {
                    None => {
                        let mut help = String::from_str("Did you mean to create a parent label `");
                        help.append(parts.1.val.as_str());
                        help.append("`?");
                        Err(
                            AssemblerError::at(
                                String::from_str("No parent label to put sublabel under"),
                                parts.1.span.start,
                                parts.1.span.end,
                                self.file_name(),
                                None,
                                Some(help),
                            ),
                        )
                    },
                    Some(parent) => {
                        let mismatch: Option<AssemblerError> = match &parts.0 {
                            Some(stated) => if stated.val == parent.0.val {
                                None
                            } else {
                                Some(self.parent_mismatch(stated, parent))
                            },
                            None => None,
                        };
                        match mismatch {
                            Some(error) => Err(error),
                            None => {
                                let mut name = parent.0.val.clone();
                                name.append(".");
                                name.append(parts.1.val.as_str());
                                Ok(name)
                            },
                        }
                    },
                };
                match named {
                    Ok(name) => {
                        self.place_label(
                            SectionLabel { name, visibility: Visibility::Object, offset },
                        );
                        Ok(())
                    },
                    Err(error) => {
                        self.push_error(error);
                        Err(())
                    },
                }
            },
        }
    }

    /// The text of the line that ends at `line_end`.
    fn line_text(&self, line_end: usize) -> (text: String)
        requires
            self@.wf(),
        ensures
            text@ == excerpt(self@.sources, self@.file(), self@.line_source_start, line_end),
    {
        let start = self.current_line_source_start;
        let sources = self.sources;
        match find_source(sources, self.file_name()) {
            Some(index) => {
                assert(sources.deep_view()[index as int] == sources[index as int].deep_view());
                match &sources[index].contents {
                    SourceText::Read(source) => {
                        let bytes = source.as_str().as_bytes();
                        if start <= line_end && line_end <= bytes.len() {
                            let part = copy_range(bytes, start, line_end);
                            let raw = text_from_bytes(part.as_slice());
                            trim_end(raw.as_str())
                        } else {
                            String::new()
                        }
                    },
                    SourceText::Failed(_) => String::new(),
                }
            },
            None => String::new(),
        }
    }

    /// Lists the line that ends at `line_end` with the code that it put.
    fn create_listing_line(&mut self, line_end: usize)
        requires
            old(self)@.wf(),
        ensures
            final(self)@ == (GeneratorView {
                listing: old(self)@.listing.push(
                    ListingView {
                        location: Some(
                            (
                                old(self)@.current_section as usize,
                                old(self)@.line_section_start,
                                old(self)@.line_section_end,
                            ),
                        ),
                        code: excerpt(
                            old(self)@.sources,
                            old(self)@.file(),
                            old(self)@.line_source_start,
                            line_end,
                        ),
                    },
                ),
                ..old(self)@
            }),
    {
        let code = self.line_text(line_end);
        self.push_listing(
            Listing {
                location: Some(
                    (
                        self.current_section,
                        self.current_line_section_start,
                        self.current_line_section_end,
                    ),
                ),
                code,
            },
        );
    }

    /// A marker of the listing for the start or the end of an included
    /// file.
    fn marker(before: &str, name: &String) -> (line: Listing)
        ensures
            line.deep_view() == (ListingView { location: None, code: before@ + name@ + "`"@ }),
    {
        let mut code = String::from_str(before);
        code.append(name.as_str());
        code.append("`");
        Listing { location: None, code }
    }

    /// Handles the action at `index` of the program, and returns the index
    /// of the action that comes next.
    fn step(&mut self, program: &Program, index: usize) -> (next: usize)
        requires
            old(self)@.wf(),
            index < program.len(),
        ensures
            (final(self)@, next as int) == action_step(
                old(self)@,
                program.deep_view(),
                index as int,
            ),
            final(self)@.wf(),
            index < next <= program.len(),
    {
        proof {
            lemma_line_end_index(program.deep_view(), index + 1);
        }
        assert(program.deep_view()[index as int] == program[index as int].deep_view());
        match &program[index] {
            Action::LineStart(start) => {
                self.current_line_source_start = *start;
                self.current_line_section_start = self.origin();
                index + 1
            },
            Action::LineEnd(end) => {
                self.current_line_source_end = *end;
                let ghost middle = self@;
                self.create_listing_line(*end);
                self.macro_valid = false;
                index + 1
            },
            Action::PushInclude(name) => {
                self.push_listing(Self::marker("**** START INCLUDED FILE `", name));
                self.include_stack.push((name.clone(), self.current_line_source_end));
                assert(self@.include_stack =~= old(self)@.include_stack.push(
                    (name@, old(self)@.line_source_end),
                ));
                index + 1
            },
            Action::PopInclude => {
                let line = Self::marker("**** END   INCLUDED FILE `", self.file_name());
                let resume = self.include_stack[self.include_stack.len() - 1].1;
                self.push_listing(line);
                if self.include_stack.len() > 1 {
                    self.include_stack.pop();
                    assert(self@.include_stack =~= old(self)@.include_stack.drop_last());
                }
                self.current_line_source_start = resume;
                self.current_line_section_start = self.origin();
                index + 1
            },
            Action::Label(label) => {
                match self.handle_label(label) {
                    Ok(_) => index + 1,
                    Err(_) => skip_to_eol(program, index + 1),
                }
            },
            Action::Instruction(instruction) => {
                match self.handle_instruction(instruction) {
                    Ok(count) => {
                        self.current_line_section_end = self.current_line_section_start + count;
                    },
                    Err(error) => {
                        self.push_error(error);
                        self.current_line_section_end = self.origin();
                    },
                }
                skip_to_eol(program, index + 1)
            },
        }
    }

    /// Assembles the program: the sections with their code, labels and
    /// references, and the listing; or the errors, all that were found.
    pub fn generate_code(self) -> (result: Result<(Object, Vec<Listing>), Vec<AssemblerError>>)
        requires
            self@.wf(),
        ensures
            generated_view(result) == outcome_of(run_from(self@, self.program(), 0)),
            result matches Ok(made) ==> forall|i: int|
                0 <= i < made.0.len() ==> (#[trigger] made.0[i]).wf() && made.0[i].tight(),
    {
        let mut generator = self;
        let mut program: Program = Vec::new();
        core::mem::swap(&mut program, &mut generator.program);
        let mut index: usize = 0;
        while index < program.len()
            invariant
                index <= program.len(),
                generator@.wf(),
                program.deep_view() == self.program(),
                run_from(generator@, program.deep_view(), index as int) == run_from(
                    self@,
                    self.program(),
                    0,
                ),
            decreases program.len() - index,
        {
            index = generator.step(&program, index);
        }
        let GeneratorContext { object, listing, errors, .. } = generator;
        if errors.len() > 0 {
            Err(errors)
        } else {
            proof {
                assert forall|i: int| 0 <= i < object.len() implies (#[trigger] object[i]).wf()
                    && object[i].tight() by {
                    assert(generator@.object[i].wf());
                }
            }
            Ok((object, listing))
        }
    }
}

/// Skips the actions of a line up to its end: the index of its end-of-line
/// action, or of the end of the program.
fn skip_to_eol(program: &Program, from: usize) -> (end: usize)
    requires
        from <= program.len(),
    ensures
        end == line_end_index(program.deep_view(), from as int),
        from <= end <= program.len(),
{
    let mut i: usize = from;
    while i < program.len()
        invariant
            from <= i <= program.len(),
            line_end_index(program.deep_view(), i as int) == line_end_index(
                program.deep_view(),
                from as int,
            ),
        decreases program.len() - i,
    {
        assert(program.deep_view()[i as int] == program[i as int].deep_view());
        if let Action::LineEnd(_) = &program[i] {
            return i;
        }
        i += 1;
    }
    i
}

/// The model of what code generation gave.
pub open spec fn generated_view(
    result: Result<(Object, Vec<Listing>), Vec<AssemblerError>>,
) -> Result<(Seq<SectionView>, Seq<ListingView>), Seq<AssemblerErrorView>> {
    match result {
        Ok(made) => Ok((made.0.deep_view(), made.1.deep_view())),
        Err(errors) => Err(errors.deep_view()),
    }
}

} // verus!
