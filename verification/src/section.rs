//! Sections: the memory that code is generated into, with the labels placed
//! in it and the references that are still to be resolved.

use crate::ast::{Location, LocationView, Modifier, Spanned, SpannedView, Visibility};
use std::ops::Range;
use vstd::prelude::*;

verus! {

/// How many bytes the processor can address, and a section holds.
pub const MEMORY_SIZE: usize = 65536;

/// A label placed in a section.
#[derive(Debug, PartialEq)]
pub struct SectionLabel {
    pub name: String,
    pub visibility: Visibility,
    pub offset: usize,
}

pub struct SectionLabelView {
    pub name: Seq<char>,
    pub visibility: Visibility,
    pub offset: usize,
}

impl DeepView for SectionLabel {
    type V = SectionLabelView;

    open spec fn deep_view(&self) -> SectionLabelView {
        SectionLabelView { name: self.name@, visibility: self.visibility, offset: self.offset }
    }
}

/// A deferred patch: where the address of a label that was not known yet is
/// to be written.
#[derive(Debug, PartialEq)]
pub struct Reference {
    /// The symbol being referenced.
    pub name: String,
    /// Where in the section to place the reference.
    pub offset: usize,
    /// Which byte of the referenced symbol to place.
    pub modifier: Option<Spanned<Modifier>>,
    /// Whether the instruction making the reference is a branch.
    pub branch: bool,
    /// Where in the source code the reference is.
    pub location: Location,
}

pub struct ReferenceView {
    pub name: Seq<char>,
    pub offset: usize,
    pub modifier: Option<SpannedView<Modifier>>,
    pub branch: bool,
    pub location: LocationView,
}

impl DeepView for Reference {
    type V = ReferenceView;

    open spec fn deep_view(&self) -> ReferenceView {
        ReferenceView {
            name: self.name@,
            offset: self.offset,
            modifier: self.modifier.deep_view(),
            branch: self.branch,
            location: self.location.deep_view(),
        }
    }
}

impl ReferenceView {
    /// How many bytes the reference reserves: one for the displacement of a
    /// branch and for one byte of an address, two for an address.
    pub open spec fn width(&self) -> int {
        if self.branch || self.modifier is Some {
            1
        } else {
            2
        }
    }

    /// The bytes that the reference reserves lie within the section.
    pub open spec fn fits(&self) -> bool {
        self.offset + self.width() <= MEMORY_SIZE
    }
}

/// A named, independently addressed buffer of bytes being assembled.
#[derive(Debug, PartialEq)]
pub struct Section {
    pub name: String,
    /// The memory of the section, `MEMORY_SIZE` bytes.
    pub data: Vec<u8>,
    /// The offset into the section where the next byte of code is put.
    pub origin: usize,
    /// The lowest offset that code was put at or the origin was set to.
    pub lowest_origin: Option<usize>,
    /// The end of the highest code.
    pub highest_origin: usize,
    /// The ranges of memory that have had code put into them.
    pub used_ranges: Vec<Range<usize>>,
    pub labels: Vec<SectionLabel>,
    pub references: Vec<Reference>,
}

pub struct SectionView {
    pub name: Seq<char>,
    pub data: Seq<u8>,
    pub origin: usize,
    pub lowest_origin: Option<usize>,
    pub highest_origin: usize,
    pub labels: Seq<SectionLabelView>,
    pub references: Seq<ReferenceView>,
}

impl DeepView for Section {
    type V = SectionView;

    open spec fn deep_view(&self) -> SectionView {
        SectionView {
            name: self.name@,
            data: self.data@,
            origin: self.origin,
            lowest_origin: self.lowest_origin,
            highest_origin: self.highest_origin,
            labels: self.labels.deep_view(),
            references: self.references.deep_view(),
        }
    }
}

impl SectionView {
    /// The section is sound: its memory is whole, its origin lies between
    /// the lowest and the highest origin, which are both zero as long as
    /// there is no lowest, and every reference has room for its patch.
    pub open spec fn wf(&self) -> bool {
        &&& self.data.len() == MEMORY_SIZE
        &&& self.origin <= self.highest_origin <= MEMORY_SIZE
        &&& match self.lowest_origin {
            Some(lowest) => lowest <= self.origin,
            None => self.highest_origin == 0,
        }
        &&& forall|i: int| 0 <= i < self.references.len() ==> (#[trigger] self.references[i]).fits()
        &&& forall|i: int| 0 <= i < self.labels.len() ==> (#[trigger] self.labels[i]).offset
            <= MEMORY_SIZE
    }

    /// The image holds all the code: the memory outside of it is zero, and
    /// every reference is patched within it.
    pub open spec fn tight(&self) -> bool {
        &&& forall|address: int|
            0 <= address < self.data.len() && !(self.image_start() <= address
                < self.highest_origin) ==> #[trigger] self.data[address] == 0
        &&& forall|i: int|
            0 <= i < self.references.len() ==> self.image_start() <= (
            #[trigger] self.references[i]).offset && self.references[i].offset
                + self.references[i].width() <= self.highest_origin
    }

    /// The first byte of the binary image.
    pub open spec fn image_start(&self) -> int {
        match self.lowest_origin {
            Some(lowest) => lowest as int,
            None => 0,
        }
    }

    /// The binary image: the memory between the lowest and the highest
    /// origin.
    pub open spec fn image(&self) -> Seq<u8> {
        self.data.subrange(self.image_start(), self.highest_origin as int)
    }

    /// A new, empty section.
    pub open spec fn empty(name: Seq<char>) -> SectionView {
        SectionView {
            name,
            data: Seq::new(MEMORY_SIZE as nat, |i: int| 0u8),
            origin: 0,
            lowest_origin: None,
            highest_origin: 0,
            labels: Seq::empty(),
            references: Seq::empty(),
        }
    }

    /// The offset of the label of a name: the one placed last counts.
    pub open spec fn label_offset(&self, name: Seq<char>) -> Option<usize> {
        label_offset_in(self.labels, name)
    }
}

/// The offset of the label of a name among labels: the last one counts.
pub open spec fn label_offset_in(labels: Seq<SectionLabelView>, name: Seq<char>) -> Option<usize>
    decreases labels.len(),
{
    if labels.len() == 0 {
        None
    } else if labels.last().name == name {
        Some(labels.last().offset)
    } else {
        label_offset_in(labels.drop_last(), name)
    }
}

impl Section {
    /// The section is sound.
    pub open spec fn wf(&self) -> bool {
        self.deep_view().wf()
    }

    /// The image holds all the code.
    pub open spec fn tight(&self) -> bool {
        self.deep_view().tight()
    }

    /// A new section of the given name, all of its memory zero.
    pub fn new(name: String) -> (section: Section)
        ensures
            section.deep_view() == SectionView::empty(name@),
            section.wf(),
            section.tight(),
    {
        let mut data: Vec<u8> = Vec::new();
        let mut i: usize = 0;
        while i < MEMORY_SIZE
            invariant
                i <= MEMORY_SIZE,
                data@.len() == i,
                forall|k: int| 0 <= k < i ==> data@[k] == 0u8,
            decreases MEMORY_SIZE - i,
        {
            data.push(0);
            i += 1;
        }
        let section = Section {
            name,
            data,
            origin: 0,
            lowest_origin: None,
            highest_origin: 0,
            used_ranges: Vec::new(),
            labels: Vec::new(),
            references: Vec::new(),
        };
        assert(section.data@ =~= SectionView::empty(name@).data);
        assert(section.labels.deep_view() =~= Seq::empty());
        assert(section.references.deep_view() =~= Seq::empty());
        section
    }

    /// Looks the offset of a label up by its name.
    pub fn find_label(&self, name: &String) -> (offset: Option<usize>)
        ensures
            offset == self.deep_view().label_offset(name@),
    {
        let mut i: usize = self.labels.len();
        assert(self.labels.deep_view().subrange(0, i as int) =~= self.labels.deep_view());
        while i > 0
            invariant
                i <= self.labels.len(),
                label_offset_in(self.labels.deep_view().subrange(0, i as int), name@)
                    == label_offset_in(self.labels.deep_view(), name@),
            decreases i,
        {
            let ghost part = self.labels.deep_view().subrange(0, i as int);
            assert(part.last() == self.labels[i - 1].deep_view());
            assert(part.drop_last() =~= self.labels.deep_view().subrange(0, i - 1));
            if self.labels[i - 1].name == *name {
                return Some(self.labels[i - 1].offset);
            }
            i -= 1;
        }
        None
    }
}

} // verus!
