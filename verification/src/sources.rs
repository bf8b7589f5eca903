//! The source files that a run of the assembler works on: the files that
//! were read, or failed to be read, by the name under which they are
//! included.

use vstd::prelude::*;

verus! {

/// What reading a file gave.
#[derive(Clone, Debug, PartialEq)]
pub enum SourceText {
    /// The text of the file.
    Read(String),
    /// Why the file could not be read.
    Failed(String),
}

pub enum SourceTextView {
    Read(Seq<char>),
    Failed(Seq<char>),
}

impl DeepView for SourceText {
    type V = SourceTextView;

    open spec fn deep_view(&self) -> SourceTextView {
        match self {
            SourceText::Read(text) => SourceTextView::Read(text@),
            SourceText::Failed(reason) => SourceTextView::Failed(reason@),
        }
    }
}

/// A file by its name, as `inl` names it.
#[derive(Clone, Debug, PartialEq)]
pub struct SourceFile {
    pub name: String,
    pub contents: SourceText,
}

pub struct SourceFileView {
    pub name: Seq<char>,
    pub contents: SourceTextView,
}

impl DeepView for SourceFile {
    type V = SourceFileView;

    open spec fn deep_view(&self) -> SourceFileView {
        SourceFileView { name: self.name@, contents: self.contents.deep_view() }
    }
}

/// The first place from `from` on at which a file of the name stands.
pub open spec fn source_index(sources: Seq<SourceFileView>, name: Seq<char>, from: int) -> Option<
    int,
>
    decreases sources.len() - from,
{
    if from < 0 || from >= sources.len() {
        None
    } else if sources[from].name == name {
        Some(from)
    } else {
        source_index(sources, name, from + 1)
    }
}

pub proof fn lemma_source_index(sources: Seq<SourceFileView>, name: Seq<char>, from: int)
    requires
        0 <= from,
    ensures
        match source_index(sources, name, from) {
            Some(index) => from <= index < sources.len() && sources[index].name == name,
            None => forall|i: int| from <= i < sources.len() ==> (#[trigger] sources[i]).name
                != name,
        },
    decreases sources.len() - from,
{
    if from < sources.len() && sources[from].name != name {
        lemma_source_index(sources, name, from + 1);
    }
}

/// Finds the file of a name.
pub fn find_source(sources: &Vec<SourceFile>, name: &String) -> (found: Option<usize>)
    ensures
        match found {
            Some(index) => source_index(sources.deep_view(), name@, 0) == Some(index as int)
                && index < sources.len(),
            None => source_index(sources.deep_view(), name@, 0) is None,
        },
{
    let mut i: usize = 0;
    while i < sources.len()
        invariant
            i <= sources.len(),
            source_index(sources.deep_view(), name@, i as int) == source_index(
                sources.deep_view(),
                name@,
                0,
            ),
        decreases sources.len() - i,
    {
        assert(sources.deep_view()[i as int] == sources[i as int].deep_view());
        if sources[i].name == *name {
            return Some(i);
        }
        i += 1;
    }
    None
}

} // verus!
