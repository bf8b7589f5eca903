//! The syntax tree that the parser hands to the code generator, and the
//! mathematical model of each of its nodes.

use crate::text::{ascii_string, ascii_text};
use std::ops::Range;
use vstd::prelude::*;
use vstd::string::StringExecFns;

verus! {

/// A node of the tree together with the bytes of the source it came from.
#[derive(Clone, Debug, PartialEq)]
pub struct Spanned<T> {
    /// The node value.
    pub val: T,
    /// Where the node is in the source.
    pub span: Range<usize>,
}

/// The model of a `Spanned` node: the model of its value, and its span.
pub struct SpannedView<V> {
    pub val: V,
    pub span: Range<usize>,
}

impl<T: DeepView> DeepView for Spanned<T> {
    type V = SpannedView<T::V>;

    open spec fn deep_view(&self) -> SpannedView<T::V> {
        SpannedView { val: self.val.deep_view(), span: self.span }
    }
}

impl<T> Spanned<T> {
    pub fn new(data: (T, Range<usize>)) -> (node: Self)
        ensures
            node.val == data.0,
            node.span == data.1,
    {
        Spanned { val: data.0, span: data.1 }
    }
}

/// Where a diagnostic points: a span of bytes in a named file.
#[derive(Clone, Debug, PartialEq)]
pub struct Location {
    /// Where in the source to point to.
    pub span: Range<usize>,
    /// Which file.
    pub file_name: String,
}

pub struct LocationView {
    pub span: Range<usize>,
    pub file_name: Seq<char>,
}

impl DeepView for Location {
    type V = LocationView;

    open spec fn deep_view(&self) -> LocationView {
        LocationView { span: self.span, file_name: self.file_name@ }
    }
}

impl Location {
    /// A copy of the location.
    pub fn duplicate(&self) -> (copy: Location)
        ensures
            copy.deep_view() == self.deep_view(),
    {
        Location { span: self.span.clone(), file_name: self.file_name.clone() }
    }
}

/// A file inclusion that is under way.
#[derive(Clone, Debug, PartialEq)]
pub struct Include {
    /// The file being included as it appears in the source.
    pub included: String,
    /// Where in the source the file was included.
    pub loc: Location,
}

pub struct IncludeView {
    pub included: Seq<char>,
    pub loc: LocationView,
}

impl DeepView for Include {
    type V = IncludeView;

    open spec fn deep_view(&self) -> IncludeView {
        IncludeView { included: self.included@, loc: self.loc.deep_view() }
    }
}

/// Representation of an assembly file: what the code generator is to do, in
/// order.
pub type Program = Vec<Action>;

/// One step for the code generator.
#[derive(Debug, PartialEq)]
pub enum Action {
    /// The index into the source where a line starts.
    LineStart(usize),
    /// The index into the source where a line ends.
    LineEnd(usize),
    /// Mark the current address with a label.
    Label(Spanned<Label>),
    /// Either a directive or instruction.
    Instruction(Spanned<Instruction>),
    /// The following actions come from the included file of this name.
    PushInclude(String),
    /// The most recently included file has ended.
    PopInclude,
}

pub enum ActionView {
    LineStart(usize),
    LineEnd(usize),
    Label(SpannedView<LabelView>),
    Instruction(SpannedView<InstructionView>),
    PushInclude(Seq<char>),
    PopInclude,
}

impl DeepView for Action {
    type V = ActionView;

    open spec fn deep_view(&self) -> ActionView {
        match self {
            Action::LineStart(start) => ActionView::LineStart(*start),
            Action::LineEnd(end) => ActionView::LineEnd(*end),
            Action::Label(label) => ActionView::Label(label.deep_view()),
            Action::Instruction(instruction) => ActionView::Instruction(instruction.deep_view()),
            Action::PushInclude(name) => ActionView::PushInclude(name@),
            Action::PopInclude => ActionView::PopInclude,
        }
    }
}

/// A label that appears at the beginning of a line.
#[derive(Debug, PartialEq)]
pub enum Label {
    Top(TopLabel),
    /// The optional explicit parent, and the sublabel.
    Sub((Option<Spanned<String>>, Spanned<String>)),
}

pub enum LabelView {
    Top(TopLabelView),
    Sub(Option<SpannedView<Seq<char>>>, SpannedView<Seq<char>>),
}

impl DeepView for Label {
    type V = LabelView;

    open spec fn deep_view(&self) -> LabelView {
        match self {
            Label::Top(top) => LabelView::Top(top.deep_view()),
            Label::Sub(parts) => LabelView::Sub(parts.0.deep_view(), parts.1.deep_view()),
        }
    }
}

/// Top level label of the line.
#[derive(Debug, PartialEq)]
pub struct TopLabel {
    pub name: String,
    pub visibility: Visibility,
}

pub struct TopLabelView {
    pub name: Seq<char>,
    pub visibility: Visibility,
}

impl DeepView for TopLabel {
    type V = TopLabelView;

    open spec fn deep_view(&self) -> TopLabelView {
        TopLabelView { name: self.name@, visibility: self.visibility }
    }
}

/// A top level label is exposed to other objects or kept to the compilation
/// unit in which it appears.
#[derive(Clone, Copy, Debug, PartialEq, Eq, Structural)]
pub enum Visibility {
    Global,
    Object,
}

/// A directive or CPU instruction.
#[derive(Debug, PartialEq)]
pub struct Instruction {
    /// What the assembler or CPU should do.
    pub mnemonic: Spanned<Mnemonic>,
    /// The operand that the mnemonic may require.
    pub operand: Option<Spanned<Operand>>,
}

pub struct InstructionView {
    pub mnemonic: SpannedView<Mnemonic>,
    pub operand: Option<SpannedView<OperandView>>,
}

impl DeepView for Instruction {
    type V = InstructionView;

    open spec fn deep_view(&self) -> InstructionView {
        InstructionView {
            mnemonic: self.mnemonic.deep_view(),
            operand: self.operand.deep_view(),
        }
    }
}

/// An assembler or CPU instruction to execute.
#[derive(Clone, Copy, Debug, PartialEq, Eq, Structural)]
pub enum Mnemonic {
    Adc,
    And,
    Asl,
    Bcc,
    Bcs,
    Beq,
    Bit,
    Bmi,
    Bne,
    Bpl,
    Brk,
    Bvc,
    Bvs,
    Clc,
    Cld,
    Cli,
    Clv,
    Cmp,
    Cpx,
    Cpy,
    Dec,
    Dex,
    Dey,
    Eor,
    Inc,
    Inx,
    Iny,
    Jmp,
    Jsr,
    Lda,
    Ldx,
    Ldy,
    Lsr,
    Nop,
    Ora,
    Pha,
    Php,
    Pla,
    Plp,
    Rol,
    Ror,
    Rti,
    Rts,
    Sbc,
    Sec,
    Sed,
    Sei,
    Sta,
    Stx,
    Sty,
    Tax,
    Tay,
    Tsx,
    Txa,
    Txs,
    Tya,
    Dfb,
    Dfw,
    Equ,
    Hlt,
    Inl,
    Org,
    Sct,
}

impl DeepView for Mnemonic {
    type V = Mnemonic;

    open spec fn deep_view(&self) -> Mnemonic {
        *self
    }
}

impl Mnemonic {
    /// The mnemonics that take no operand: what follows one on its line is a
    /// comment.
    pub open spec fn spec_is_implied(&self) -> bool {
        matches!(
            self,
            Mnemonic::Brk | Mnemonic::Clc | Mnemonic::Cld | Mnemonic::Cli | Mnemonic::Clv
                | Mnemonic::Dex | Mnemonic::Dey | Mnemonic::Inx | Mnemonic::Iny | Mnemonic::Nop
                | Mnemonic::Pha | Mnemonic::Php | Mnemonic::Pla | Mnemonic::Plp | Mnemonic::Rti
                | Mnemonic::Rts | Mnemonic::Sec | Mnemonic::Sed | Mnemonic::Sei | Mnemonic::Tax
                | Mnemonic::Tay | Mnemonic::Tsx | Mnemonic::Txa | Mnemonic::Txs | Mnemonic::Tya
        )
    }

    #[verifier::when_used_as_spec(spec_is_implied)]
    pub fn is_implied(&self) -> (implied: bool)
        ensures
            implied == self.spec_is_implied(),
    {
        matches!(
            self,
            Mnemonic::Brk | Mnemonic::Clc | Mnemonic::Cld | Mnemonic::Cli | Mnemonic::Clv
                | Mnemonic::Dex | Mnemonic::Dey | Mnemonic::Inx | Mnemonic::Iny | Mnemonic::Nop
                | Mnemonic::Pha | Mnemonic::Php | Mnemonic::Pla | Mnemonic::Plp | Mnemonic::Rti
                | Mnemonic::Rts | Mnemonic::Sec | Mnemonic::Sed | Mnemonic::Sei | Mnemonic::Tax
                | Mnemonic::Tay | Mnemonic::Tsx | Mnemonic::Txa | Mnemonic::Txs | Mnemonic::Tya
        )
    }

    /// The conditional branches, whose operand is a signed displacement.
    pub open spec fn spec_is_branch(&self) -> bool {
        matches!(
            self,
            Mnemonic::Bcc | Mnemonic::Bcs | Mnemonic::Beq | Mnemonic::Bmi | Mnemonic::Bne
                | Mnemonic::Bpl | Mnemonic::Bvc | Mnemonic::Bvs
        )
    }

    #[verifier::when_used_as_spec(spec_is_branch)]
    pub fn is_branch(&self) -> (branch: bool)
        ensures
            branch == self.spec_is_branch(),
    {
        matches!(
            self,
            Mnemonic::Bcc | Mnemonic::Bcs | Mnemonic::Beq | Mnemonic::Bmi | Mnemonic::Bne
                | Mnemonic::Bpl | Mnemonic::Bvc | Mnemonic::Bvs
        )
    }

    /// The three lower-case letters that spell the mnemonic.
    pub open spec fn spec_letters(&self) -> (u8, u8, u8) {
        match self {
            Mnemonic::Adc => (0x61, 0x64, 0x63),
            Mnemonic::And => (0x61, 0x6e, 0x64),
            Mnemonic::Asl => (0x61, 0x73, 0x6c),
            Mnemonic::Bcc => (0x62, 0x63, 0x63),
            Mnemonic::Bcs => (0x62, 0x63, 0x73),
            Mnemonic::Beq => (0x62, 0x65, 0x71),
            Mnemonic::Bit => (0x62, 0x69, 0x74),
            Mnemonic::Bmi => (0x62, 0x6d, 0x69),
            Mnemonic::Bne => (0x62, 0x6e, 0x65),
            Mnemonic::Bpl => (0x62, 0x70, 0x6c),
            Mnemonic::Brk => (0x62, 0x72, 0x6b),
            Mnemonic::Bvc => (0x62, 0x76, 0x63),
            Mnemonic::Bvs => (0x62, 0x76, 0x73),
            Mnemonic::Clc => (0x63, 0x6c, 0x63),
            Mnemonic::Cld => (0x63, 0x6c, 0x64),
            Mnemonic::Cli => (0x63, 0x6c, 0x69),
            Mnemonic::Clv => (0x63, 0x6c, 0x76),
            Mnemonic::Cmp => (0x63, 0x6d, 0x70),
            Mnemonic::Cpx => (0x63, 0x70, 0x78),
            Mnemonic::Cpy => (0x63, 0x70, 0x79),
            Mnemonic::Dec => (0x64, 0x65, 0x63),
            Mnemonic::Dex => (0x64, 0x65, 0x78),
            Mnemonic::Dey => (0x64, 0x65, 0x79),
            Mnemonic::Eor => (0x65, 0x6f, 0x72),
            Mnemonic::Inc => (0x69, 0x6e, 0x63),
            Mnemonic::Inx => (0x69, 0x6e, 0x78),
            Mnemonic::Iny => (0x69, 0x6e, 0x79),
            Mnemonic::Jmp => (0x6a, 0x6d, 0x70),
            Mnemonic::Jsr => (0x6a, 0x73, 0x72),
            Mnemonic::Lda => (0x6c, 0x64, 0x61),
            Mnemonic::Ldx => (0x6c, 0x64, 0x78),
            Mnemonic::Ldy => (0x6c, 0x64, 0x79),
            Mnemonic::Lsr => (0x6c, 0x73, 0x72),
            Mnemonic::Nop => (0x6e, 0x6f, 0x70),
            Mnemonic::Ora => (0x6f, 0x72, 0x61),
            Mnemonic::Pha => (0x70, 0x68, 0x61),
            Mnemonic::Php => (0x70, 0x68, 0x70),
            Mnemonic::Pla => (0x70, 0x6c, 0x61),
            Mnemonic::Plp => (0x70, 0x6c, 0x70),
            Mnemonic::Rol => (0x72, 0x6f, 0x6c),
            Mnemonic::Ror => (0x72, 0x6f, 0x72),
            Mnemonic::Rti => (0x72, 0x74, 0x69),
            Mnemonic::Rts => (0x72, 0x74, 0x73),
            Mnemonic::Sbc => (0x73, 0x62, 0x63),
            Mnemonic::Sec => (0x73, 0x65, 0x63),
            Mnemonic::Sed => (0x73, 0x65, 0x64),
            Mnemonic::Sei => (0x73, 0x65, 0x69),
            Mnemonic::Sta => (0x73, 0x74, 0x61),
            Mnemonic::Stx => (0x73, 0x74, 0x78),
            Mnemonic::Sty => (0x73, 0x74, 0x79),
            Mnemonic::Tax => (0x74, 0x61, 0x78),
            Mnemonic::Tay => (0x74, 0x61, 0x79),
            Mnemonic::Tsx => (0x74, 0x73, 0x78),
            Mnemonic::Txa => (0x74, 0x78, 0x61),
            Mnemonic::Txs => (0x74, 0x78, 0x73),
            Mnemonic::Tya => (0x74, 0x79, 0x61),
            Mnemonic::Dfb => (0x64, 0x66, 0x62),
            Mnemonic::Dfw => (0x64, 0x66, 0x77),
            Mnemonic::Equ => (0x65, 0x71, 0x75),
            Mnemonic::Hlt => (0x68, 0x6c, 0x74),
            Mnemonic::Inl => (0x69, 0x6e, 0x6c),
            Mnemonic::Org => (0x6f, 0x72, 0x67),
            Mnemonic::Sct => (0x73, 0x63, 0x74),
        }
    }

    #[verifier::when_used_as_spec(spec_letters)]
    pub fn letters(&self) -> (letters: (u8, u8, u8))
        ensures
            letters == self.spec_letters(),
            0x61 <= letters.0 <= 0x7a,
            0x61 <= letters.1 <= 0x7a,
            0x61 <= letters.2 <= 0x7a,
    {
        match self {
            Mnemonic::Adc => (0x61, 0x64, 0x63),
            Mnemonic::And => (0x61, 0x6e, 0x64),
            Mnemonic::Asl => (0x61, 0x73, 0x6c),
            Mnemonic::Bcc => (0x62, 0x63, 0x63),
            Mnemonic::Bcs => (0x62, 0x63, 0x73),
            Mnemonic::Beq => (0x62, 0x65, 0x71),
            Mnemonic::Bit => (0x62, 0x69, 0x74),
            Mnemonic::Bmi => (0x62, 0x6d, 0x69),
            Mnemonic::Bne => (0x62, 0x6e, 0x65),
            Mnemonic::Bpl => (0x62, 0x70, 0x6c),
            Mnemonic::Brk => (0x62, 0x72, 0x6b),
            Mnemonic::Bvc => (0x62, 0x76, 0x63),
            Mnemonic::Bvs => (0x62, 0x76, 0x73),
            Mnemonic::Clc => (0x63, 0x6c, 0x63),
            Mnemonic::Cld => (0x63, 0x6c, 0x64),
            Mnemonic::Cli => (0x63, 0x6c, 0x69),
            Mnemonic::Clv => (0x63, 0x6c, 0x76),
            Mnemonic::Cmp => (0x63, 0x6d, 0x70),
            Mnemonic::Cpx => (0x63, 0x70, 0x78),
            Mnemonic::Cpy => (0x63, 0x70, 0x79),
            Mnemonic::Dec => (0x64, 0x65, 0x63),
            Mnemonic::Dex => (0x64, 0x65, 0x78),
            Mnemonic::Dey => (0x64, 0x65, 0x79),
            Mnemonic::Eor => (0x65, 0x6f, 0x72),
            Mnemonic::Inc => (0x69, 0x6e, 0x63),
            Mnemonic::Inx => (0x69, 0x6e, 0x78),
            Mnemonic::Iny => (0x69, 0x6e, 0x79),
            Mnemonic::Jmp => (0x6a, 0x6d, 0x70),
            Mnemonic::Jsr => (0x6a, 0x73, 0x72),
            Mnemonic::Lda => (0x6c, 0x64, 0x61),
            Mnemonic::Ldx => (0x6c, 0x64, 0x78),
            Mnemonic::Ldy => (0x6c, 0x64, 0x79),
            Mnemonic::Lsr => (0x6c, 0x73, 0x72),
            Mnemonic::Nop => (0x6e, 0x6f, 0x70),
            Mnemonic::Ora => (0x6f, 0x72, 0x61),
            Mnemonic::Pha => (0x70, 0x68, 0x61),
            Mnemonic::Php => (0x70, 0x68, 0x70),
            Mnemonic::Pla => (0x70, 0x6c, 0x61),
            Mnemonic::Plp => (0x70, 0x6c, 0x70),
            Mnemonic::Rol => (0x72, 0x6f, 0x6c),
            Mnemonic::Ror => (0x72, 0x6f, 0x72),
            Mnemonic::Rti => (0x72, 0x74, 0x69),
            Mnemonic::Rts => (0x72, 0x74, 0x73),
            Mnemonic::Sbc => (0x73, 0x62, 0x63),
            Mnemonic::Sec => (0x73, 0x65, 0x63),
            Mnemonic::Sed => (0x73, 0x65, 0x64),
            Mnemonic::Sei => (0x73, 0x65, 0x69),
            Mnemonic::Sta => (0x73, 0x74, 0x61),
            Mnemonic::Stx => (0x73, 0x74, 0x78),
            Mnemonic::Sty => (0x73, 0x74, 0x79),
            Mnemonic::Tax => (0x74, 0x61, 0x78),
            Mnemonic::Tay => (0x74, 0x61, 0x79),
            Mnemonic::Tsx => (0x74, 0x73, 0x78),
            Mnemonic::Txa => (0x74, 0x78, 0x61),
            Mnemonic::Txs => (0x74, 0x78, 0x73),
            Mnemonic::Tya => (0x74, 0x79, 0x61),
            Mnemonic::Dfb => (0x64, 0x66, 0x62),
            Mnemonic::Dfw => (0x64, 0x66, 0x77),
            Mnemonic::Equ => (0x65, 0x71, 0x75),
            Mnemonic::Hlt => (0x68, 0x6c, 0x74),
            Mnemonic::Inl => (0x69, 0x6e, 0x6c),
            Mnemonic::Org => (0x6f, 0x72, 0x67),
            Mnemonic::Sct => (0x73, 0x63, 0x74),
        }
    }

    /// The mnemonic as it is written in lower case.
    pub open spec fn name(&self) -> Seq<u8> {
        seq![self.spec_letters().0, self.spec_letters().1, self.spec_letters().2]
    }

    /// The mnemonic in lower case, as diagnostics print it.
    pub fn to_string(&self) -> (text: String)
        ensures
            text@ == ascii_text(self.name()),
    {
        let letters = self.letters();
        let mut bytes: Vec<u8> = Vec::new();
        bytes.push(letters.0);
        bytes.push(letters.1);
        bytes.push(letters.2);
        assert(bytes@ =~= self.name());
        ascii_string(bytes.as_slice())
    }
}

/// The mnemonic that three lower-case letters spell, if any.
pub open spec fn mnemonic_of_letters(first: u8, second: u8, third: u8) -> Option<Mnemonic> {
    match (first, second, third) {
        (0x61, 0x64, 0x63) => Some(Mnemonic::Adc),
        (0x61, 0x6e, 0x64) => Some(Mnemonic::And),
        (0x61, 0x73, 0x6c) => Some(Mnemonic::Asl),
        (0x62, 0x63, 0x63) => Some(Mnemonic::Bcc),
        (0x62, 0x63, 0x73) => Some(Mnemonic::Bcs),
        (0x62, 0x65, 0x71) => Some(Mnemonic::Beq),
        (0x62, 0x69, 0x74) => Some(Mnemonic::Bit),
        (0x62, 0x6d, 0x69) => Some(Mnemonic::Bmi),
        (0x62, 0x6e, 0x65) => Some(Mnemonic::Bne),
        (0x62, 0x70, 0x6c) => Some(Mnemonic::Bpl),
        (0x62, 0x72, 0x6b) => Some(Mnemonic::Brk),
        (0x62, 0x76, 0x63) => Some(Mnemonic::Bvc),
        (0x62, 0x76, 0x73) => Some(Mnemonic::Bvs),
        (0x63, 0x6c, 0x63) => Some(Mnemonic::Clc),
        (0x63, 0x6c, 0x64) => Some(Mnemonic::Cld),
        (0x63, 0x6c, 0x69) => Some(Mnemonic::Cli),
        (0x63, 0x6c, 0x76) => Some(Mnemonic::Clv),
        (0x63, 0x6d, 0x70) => Some(Mnemonic::Cmp),
        (0x63, 0x70, 0x78) => Some(Mnemonic::Cpx),
        (0x63, 0x70, 0x79) => Some(Mnemonic::Cpy),
        (0x64, 0x65, 0x63) => Some(Mnemonic::Dec),
        (0x64, 0x65, 0x78) => Some(Mnemonic::Dex),
        (0x64, 0x65, 0x79) => Some(Mnemonic::Dey),
        (0x65, 0x6f, 0x72) => Some(Mnemonic::Eor),
        (0x69, 0x6e, 0x63) => Some(Mnemonic::Inc),
        (0x69, 0x6e, 0x78) => Some(Mnemonic::Inx),
        (0x69, 0x6e, 0x79) => Some(Mnemonic::Iny),
        (0x6a, 0x6d, 0x70) => Some(Mnemonic::Jmp),
        (0x6a, 0x73, 0x72) => Some(Mnemonic::Jsr),
        (0x6c, 0x64, 0x61) => Some(Mnemonic::Lda),
        (0x6c, 0x64, 0x78) => Some(Mnemonic::Ldx),
        (0x6c, 0x64, 0x79) => Some(Mnemonic::Ldy),
        (0x6c, 0x73, 0x72) => Some(Mnemonic::Lsr),
        (0x6e, 0x6f, 0x70) => Some(Mnemonic::Nop),
        (0x6f, 0x72, 0x61) => Some(Mnemonic::Ora),
        (0x70, 0x68, 0x61) => Some(Mnemonic::Pha),
        (0x70, 0x68, 0x70) => Some(Mnemonic::Php),
        (0x70, 0x6c, 0x61) => Some(Mnemonic::Pla),
        (0x70, 0x6c, 0x70) => Some(Mnemonic::Plp),
        (0x72, 0x6f, 0x6c) => Some(Mnemonic::Rol),
        (0x72, 0x6f, 0x72) => Some(Mnemonic::Ror),
        (0x72, 0x74, 0x69) => Some(Mnemonic::Rti),
        (0x72, 0x74, 0x73) => Some(Mnemonic::Rts),
        (0x73, 0x62, 0x63) => Some(Mnemonic::Sbc),
        (0x73, 0x65, 0x63) => Some(Mnemonic::Sec),
        (0x73, 0x65, 0x64) => Some(Mnemonic::Sed),
        (0x73, 0x65, 0x69) => Some(Mnemonic::Sei),
        (0x73, 0x74, 0x61) => Some(Mnemonic::Sta),
        (0x73, 0x74, 0x78) => Some(Mnemonic::Stx),
        (0x73, 0x74, 0x79) => Some(Mnemonic::Sty),
        (0x74, 0x61, 0x78) => Some(Mnemonic::Tax),
        (0x74, 0x61, 0x79) => Some(Mnemonic::Tay),
        (0x74, 0x73, 0x78) => Some(Mnemonic::Tsx),
        (0x74, 0x78, 0x61) => Some(Mnemonic::Txa),
        (0x74, 0x78, 0x73) => Some(Mnemonic::Txs),
        (0x74, 0x79, 0x61) => Some(Mnemonic::Tya),
        (0x64, 0x66, 0x62) => Some(Mnemonic::Dfb),
        (0x64, 0x66, 0x77) => Some(Mnemonic::Dfw),
        (0x65, 0x71, 0x75) => Some(Mnemonic::Equ),
        (0x68, 0x6c, 0x74) => Some(Mnemonic::Hlt),
        (0x69, 0x6e, 0x6c) => Some(Mnemonic::Inl),
        (0x6f, 0x72, 0x67) => Some(Mnemonic::Org),
        (0x73, 0x63, 0x74) => Some(Mnemonic::Sct),
        _ => None,
    }
}

/// Finds the mnemonic that three lower-case letters spell.
pub fn find_mnemonic(first: u8, second: u8, third: u8) -> (found: Option<Mnemonic>)
    ensures
        found == mnemonic_of_letters(first, second, third),
{
    match (first, second, third) {
        (0x61, 0x64, 0x63) => Some(Mnemonic::Adc),
        (0x61, 0x6e, 0x64) => Some(Mnemonic::And),
        (0x61, 0x73, 0x6c) => Some(Mnemonic::Asl),
        (0x62, 0x63, 0x63) => Some(Mnemonic::Bcc),
        (0x62, 0x63, 0x73) => Some(Mnemonic::Bcs),
        (0x62, 0x65, 0x71) => Some(Mnemonic::Beq),
        (0x62, 0x69, 0x74) => Some(Mnemonic::Bit),
        (0x62, 0x6d, 0x69) => Some(Mnemonic::Bmi),
        (0x62, 0x6e, 0x65) => Some(Mnemonic::Bne),
        (0x62, 0x70, 0x6c) => Some(Mnemonic::Bpl),
        (0x62, 0x72, 0x6b) => Some(Mnemonic::Brk),
        (0x62, 0x76, 0x63) => Some(Mnemonic::Bvc),
        (0x62, 0x76, 0x73) => Some(Mnemonic::Bvs),
        (0x63, 0x6c, 0x63) => Some(Mnemonic::Clc),
        (0x63, 0x6c, 0x64) => Some(Mnemonic::Cld),
        (0x63, 0x6c, 0x69) => Some(Mnemonic::Cli),
        (0x63, 0x6c, 0x76) => Some(Mnemonic::Clv),
        (0x63, 0x6d, 0x70) => Some(Mnemonic::Cmp),
        (0x63, 0x70, 0x78) => Some(Mnemonic::Cpx),
        (0x63, 0x70, 0x79) => Some(Mnemonic::Cpy),
        (0x64, 0x65, 0x63) => Some(Mnemonic::Dec),
        (0x64, 0x65, 0x78) => Some(Mnemonic::Dex),
        (0x64, 0x65, 0x79) => Some(Mnemonic::Dey),
        (0x65, 0x6f, 0x72) => Some(Mnemonic::Eor),
        (0x69, 0x6e, 0x63) => Some(Mnemonic::Inc),
        (0x69, 0x6e, 0x78) => Some(Mnemonic::Inx),
        (0x69, 0x6e, 0x79) => Some(Mnemonic::Iny),
        (0x6a, 0x6d, 0x70) => Some(Mnemonic::Jmp),
        (0x6a, 0x73, 0x72) => Some(Mnemonic::Jsr),
        (0x6c, 0x64, 0x61) => Some(Mnemonic::Lda),
        (0x6c, 0x64, 0x78) => Some(Mnemonic::Ldx),
        (0x6c, 0x64, 0x79) => Some(Mnemonic::Ldy),
        (0x6c, 0x73, 0x72) => Some(Mnemonic::Lsr),
        (0x6e, 0x6f, 0x70) => Some(Mnemonic::Nop),
        (0x6f, 0x72, 0x61) => Some(Mnemonic::Ora),
        (0x70, 0x68, 0x61) => Some(Mnemonic::Pha),
        (0x70, 0x68, 0x70) => Some(Mnemonic::Php),
        (0x70, 0x6c, 0x61) => Some(Mnemonic::Pla),
        (0x70, 0x6c, 0x70) => Some(Mnemonic::Plp),
        (0x72, 0x6f, 0x6c) => Some(Mnemonic::Rol),
        (0x72, 0x6f, 0x72) => Some(Mnemonic::Ror),
        (0x72, 0x74, 0x69) => Some(Mnemonic::Rti),
        (0x72, 0x74, 0x73) => Some(Mnemonic::Rts),
        (0x73, 0x62, 0x63) => Some(Mnemonic::Sbc),
        (0x73, 0x65, 0x63) => Some(Mnemonic::Sec),
        (0x73, 0x65, 0x64) => Some(Mnemonic::Sed),
        (0x73, 0x65, 0x69) => Some(Mnemonic::Sei),
        (0x73, 0x74, 0x61) => Some(Mnemonic::Sta),
        (0x73, 0x74, 0x78) => Some(Mnemonic::Stx),
        (0x73, 0x74, 0x79) => Some(Mnemonic::Sty),
        (0x74, 0x61, 0x78) => Some(Mnemonic::Tax),
        (0x74, 0x61, 0x79) => Some(Mnemonic::Tay),
        (0x74, 0x73, 0x78) => Some(Mnemonic::Tsx),
        (0x74, 0x78, 0x61) => Some(Mnemonic::Txa),
        (0x74, 0x78, 0x73) => Some(Mnemonic::Txs),
        (0x74, 0x79, 0x61) => Some(Mnemonic::Tya),
        (0x64, 0x66, 0x62) => Some(Mnemonic::Dfb),
        (0x64, 0x66, 0x77) => Some(Mnemonic::Dfw),
        (0x65, 0x71, 0x75) => Some(Mnemonic::Equ),
        (0x68, 0x6c, 0x74) => Some(Mnemonic::Hlt),
        (0x69, 0x6e, 0x6c) => Some(Mnemonic::Inl),
        (0x6f, 0x72, 0x67) => Some(Mnemonic::Org),
        (0x73, 0x63, 0x74) => Some(Mnemonic::Sct),
        _ => None,
    }
}

/// Every mnemonic is found again by its own letters, and by no others.
pub proof fn lemma_mnemonic_letters(mnemonic: Mnemonic, first: u8, second: u8, third: u8)
    ensures
        mnemonic_of_letters(first, second, third) == Some(mnemonic) <==> mnemonic.spec_letters()
            == (first, second, third),
{
}

/// The parsed instruction operand.
#[derive(Debug, PartialEq)]
pub struct Operand {
    pub mode: OperandMode,
    pub modifier: Option<Spanned<Modifier>>,
    pub value: Spanned<Value>,
}

pub struct OperandView {
    pub mode: OperandMode,
    pub modifier: Option<SpannedView<Modifier>>,
    pub value: SpannedView<ValueView>,
}

impl DeepView for Operand {
    type V = OperandView;

    open spec fn deep_view(&self) -> OperandView {
        OperandView {
            mode: self.mode,
            modifier: self.modifier.deep_view(),
            value: self.value.deep_view(),
        }
    }
}

/// The address mode that an operand mode and the width of its value give.
/// An address or an indexed address is in the zero page exactly when its
/// value is one byte wide; a branch treats a wider address as its relative
/// target, which shares the syntax of the zero page.
pub open spec fn address_mode_of(mode: OperandMode, byte_wide: bool, branch: bool) -> AddressMode {
    match mode {
        OperandMode::Accumulator => AddressMode::Accumulator,
        OperandMode::Address => if byte_wide || branch {
            AddressMode::Zeropage
        } else {
            AddressMode::Absolute
        },
        OperandMode::XIndexed => if byte_wide {
            AddressMode::ZeropageX
        } else {
            AddressMode::AbsoluteX
        },
        OperandMode::YIndexed => if byte_wide {
            AddressMode::ZeropageY
        } else {
            AddressMode::AbsoluteY
        },
        OperandMode::Immediate => AddressMode::Immediate,
        OperandMode::Indirect => AddressMode::Indirect,
        OperandMode::XIndirect => AddressMode::XIndirect,
        OperandMode::IndirectY => AddressMode::IndirectY,
    }
}

impl Operand {
    /// The address mode of the operand, by which the opcode of the
    /// instruction is looked up.
    pub fn address_mode(&self, branch: bool) -> (mode: AddressMode)
        ensures
            mode == address_mode_of(self.mode, self.value.val is Byte, branch),
    {
        let byte_wide = matches!(self.value.val, Value::Byte(_));
        match self.mode {
            OperandMode::Accumulator => AddressMode::Accumulator,
            OperandMode::Address => {
                if byte_wide || branch {
                    AddressMode::Zeropage
                } else {
                    AddressMode::Absolute
                }
            },
            OperandMode::XIndexed => {
                if byte_wide {
                    AddressMode::ZeropageX
                } else {
                    AddressMode::AbsoluteX
                }
            },
            OperandMode::YIndexed => {
                if byte_wide {
                    AddressMode::ZeropageY
                } else {
                    AddressMode::AbsoluteY
                }
            },
            OperandMode::Immediate => AddressMode::Immediate,
            OperandMode::Indirect => AddressMode::Indirect,
            OperandMode::XIndirect => AddressMode::XIndirect,
            OperandMode::IndirectY => AddressMode::IndirectY,
        }
    }
}

/// An approximation of the operand's address mode: whether an address is in
/// the zero page is known only when its value is.
#[derive(Clone, Copy, Debug, PartialEq, Eq, Structural)]
pub enum OperandMode {
    /// The A register is being used.
    Accumulator,
    /// Some address: absolute, zeropage or relative.
    Address,
    /// X is added to an address.
    XIndexed,
    /// Y is added to an address.
    YIndexed,
    /// The operand is an immediate number.
    Immediate,
    /// The operand dereferences an absolute address.
    Indirect,
    /// X is added to a zeropage address and the word there is dereferenced.
    XIndirect,
    /// The word at a zeropage address is dereferenced and Y added to it.
    IndirectY,
}

/// A modifier to a word value.
#[derive(Clone, Copy, Debug, PartialEq, Eq, Structural)]
pub enum Modifier {
    /// Take the high byte of that word.
    HighByte,
    /// Take the low byte of that word.
    LowByte,
}

impl DeepView for Modifier {
    type V = Modifier;

    open spec fn deep_view(&self) -> Modifier {
        *self
    }
}

/// The value to be modified and used by the operand.
#[derive(Debug, PartialEq)]
pub enum Value {
    /// The accumulator is the value to be used.
    Accumulator,
    /// The value is a literal byte.
    Byte(u8),
    /// The value is a literal word.
    Word(u16),
    /// The value is a literal string.
    String(String),
    /// The value is a reference to a macro or label.
    Reference(String),
    /// An included file: its name and its program.
    Include((String, Program)),
}

/// The model of a value. Of an included file it keeps the name;
/// `Value::included_program` gives the program.
pub enum ValueView {
    Accumulator,
    Byte(u8),
    Word(u16),
    String(Seq<char>),
    Reference(Seq<char>),
    Include(Seq<char>),
}

impl DeepView for Value {
    type V = ValueView;

    open spec fn deep_view(&self) -> ValueView {
        match self {
            Value::Accumulator => ValueView::Accumulator,
            Value::Byte(byte) => ValueView::Byte(*byte),
            Value::Word(word) => ValueView::Word(*word),
            Value::String(string) => ValueView::String(string@),
            Value::Reference(name) => ValueView::Reference(name@),
            Value::Include(parts) => ValueView::Include(parts.0@),
        }
    }
}

impl Value {
    /// The program of an included file; empty for any other value.
    pub open spec fn included_program(&self) -> Seq<ActionView> {
        match self {
            Value::Include(parts) => parts.1.deep_view(),
            _ => Seq::empty(),
        }
    }
}

/// The address mode of an operand. Relative is missing because its syntax is
/// that of the zero page.
#[derive(Clone, Copy, Debug, PartialEq, Eq, Structural)]
pub enum AddressMode {
    Accumulator,
    Absolute,
    AbsoluteX,
    AbsoluteY,
    Immediate,
    Implied,
    Indirect,
    XIndirect,
    IndirectY,
    Zeropage,
    ZeropageX,
    ZeropageY,
}

impl AddressMode {
    /// How diagnostics name the mode: the zero page of a branch is its
    /// relative mode.
    pub open spec fn spec_string_rep(&self, mnemonic: Mnemonic) -> Seq<char> {
        if mnemonic.spec_is_branch() && *self == AddressMode::Zeropage {
            "Relative"@
        } else {
            match self {
                AddressMode::Accumulator => "Accumulator"@,
                AddressMode::Absolute => "Absolute"@,
                AddressMode::AbsoluteX => "Absolute, X-Indexed"@,
                AddressMode::AbsoluteY => "Absolute, Y-Indexed"@,
                AddressMode::Immediate => "Immediate"@,
                AddressMode::Implied => "Implied"@,
                AddressMode::Indirect => "Indirect"@,
                AddressMode::XIndirect => "X-indexed, indirect"@,
                AddressMode::IndirectY => "Indirect, Y-indexed"@,
                AddressMode::Zeropage => "Zeropage"@,
                AddressMode::ZeropageX => "Zeropage, X-indexed"@,
                AddressMode::ZeropageY => "Zeropage, Y-indexed"@,
            }
        }
    }

    /// The name of the mode for diagnostics about `mnemonic`.
    pub fn string_rep(&self, mnemonic: Mnemonic) -> (name: String)
        ensures
            name@ == self.spec_string_rep(mnemonic),
    {
        String::from_str(
            if mnemonic.is_branch() && matches!(self, AddressMode::Zeropage) {
                "Relative"
            } else {
                match self {
                    AddressMode::Accumulator => "Accumulator",
                    AddressMode::Absolute => "Absolute",
                    AddressMode::AbsoluteX => "Absolute, X-Indexed",
                    AddressMode::AbsoluteY => "Absolute, Y-Indexed",
                    AddressMode::Immediate => "Immediate",
                    AddressMode::Implied => "Implied",
                    AddressMode::Indirect => "Indirect",
                    AddressMode::XIndirect => "X-indexed, indirect",
                    AddressMode::IndirectY => "Indirect, Y-indexed",
                    AddressMode::Zeropage => "Zeropage",
                    AddressMode::ZeropageX => "Zeropage, X-indexed",
                    AddressMode::ZeropageY => "Zeropage, Y-indexed",
                }
            },
        )
    }

    /// The modes in the order in which diagnostics list them.
    pub open spec fn spec_at(index: int) -> AddressMode {
        if index == 0 {
            AddressMode::Accumulator
        } else if index == 1 {
            AddressMode::Absolute
        } else if index == 2 {
            AddressMode::AbsoluteX
        } else if index == 3 {
            AddressMode::AbsoluteY
        } else if index == 4 {
            AddressMode::Immediate
        } else if index == 5 {
            AddressMode::Implied
        } else if index == 6 {
            AddressMode::Indirect
        } else if index == 7 {
            AddressMode::XIndirect
        } else if index == 8 {
            AddressMode::IndirectY
        } else if index == 9 {
            AddressMode::Zeropage
        } else if index == 10 {
            AddressMode::ZeropageX
        } else {
            AddressMode::ZeropageY
        }
    }

    /// The mode at a place of that order.
    pub fn at(index: usize) -> (mode: AddressMode)
        ensures
            mode == Self::spec_at(index as int),
    {
        if index == 0 {
            AddressMode::Accumulator
        } else if index == 1 {
            AddressMode::Absolute
        } else if index == 2 {
            AddressMode::AbsoluteX
        } else if index == 3 {
            AddressMode::AbsoluteY
        } else if index == 4 {
            AddressMode::Immediate
        } else if index == 5 {
            AddressMode::Implied
        } else if index == 6 {
            AddressMode::Indirect
        } else if index == 7 {
            AddressMode::XIndirect
        } else if index == 8 {
            AddressMode::IndirectY
        } else if index == 9 {
            AddressMode::Zeropage
        } else if index == 10 {
            AddressMode::ZeropageX
        } else {
            AddressMode::ZeropageY
        }
    }
}

} // verus!
