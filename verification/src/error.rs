//! The record in which the assembler reports an error.

use crate::ast::{Location, LocationView};
use vstd::prelude::*;

verus! {

/// An error found while parsing or generating code.
#[derive(Debug, PartialEq)]
pub struct AssemblerError {
    /// The main error message.
    pub message: String,
    /// Notes that point to excerpts of the source. The first is the primary
    /// label and the rest are secondary.
    pub labels: Vec<(Location, Option<String>)>,
    /// Help message if necessary.
    pub help: Option<String>,
}

pub struct AssemblerErrorView {
    pub message: Seq<char>,
    pub labels: Seq<(LocationView, Option<Seq<char>>)>,
    pub help: Option<Seq<char>>,
}

impl DeepView for AssemblerError {
    type V = AssemblerErrorView;

    open spec fn deep_view(&self) -> AssemblerErrorView {
        AssemblerErrorView {
            message: self.message@,
            labels: self.labels.deep_view(),
            help: self.help.deep_view(),
        }
    }
}

/// The model of a label: a span in a file, and the note beside it.
pub open spec fn label_at(
    start: int,
    end: int,
    file_name: Seq<char>,
    note: Option<Seq<char>>,
) -> (LocationView, Option<Seq<char>>) {
    (LocationView { span: (start as usize)..(end as usize), file_name }, note)
}

/// The model of an error with one label.
pub open spec fn error_at(
    message: Seq<char>,
    start: int,
    end: int,
    file_name: Seq<char>,
    note: Option<Seq<char>>,
    help: Option<Seq<char>>,
) -> AssemblerErrorView {
    AssemblerErrorView { message, labels: seq![label_at(start, end, file_name, note)], help }
}

impl AssemblerError {
    /// An error whose one label is a location that is at hand.
    pub fn located(
        message: String,
        location: &Location,
        note: Option<String>,
        help: Option<String>,
    ) -> (error: AssemblerError)
        ensures
            error.deep_view() == (AssemblerErrorView {
                message: message@,
                labels: seq![(location.deep_view(), note.deep_view())],
                help: help.deep_view(),
            }),
    {
        let mut labels: Vec<(Location, Option<String>)> = Vec::new();
        labels.push((location.duplicate(), note));
        let error = AssemblerError { message, labels, help };
        assert(error.labels.deep_view() =~= seq![(location.deep_view(), note.deep_view())]);
        error
    }

    /// An error with one label.
    pub fn at(
        message: String,
        start: usize,
        end: usize,
        file_name: &String,
        note: Option<String>,
        help: Option<String>,
    ) -> (error: AssemblerError)
        ensures
            error.deep_view() == error_at(
                message@,
                start as int,
                end as int,
                file_name@,
                note.deep_view(),
                help.deep_view(),
            ),
    {
        let mut labels: Vec<(Location, Option<String>)> = Vec::new();
        labels.push((Location { span: start..end, file_name: file_name.clone() }, note));
        let error = AssemblerError { message, labels, help };
        assert(error.labels.deep_view() =~= seq![
            label_at(start as int, end as int, file_name@, note.deep_view()),
        ]);
        error
    }
}

} // verus!
