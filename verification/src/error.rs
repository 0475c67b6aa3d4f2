//! The ways in which a translation can fail.

use vstd::prelude::*;
use vstd::string::*;
use crate::text::{decimal, decimal_string};

verus! {

/// Why a translation run was given up.
#[derive(Clone, Debug, PartialEq, Eq)]
pub enum TranslateError {
    /// A source unit could not be read. Holds what the reader reported, which
    /// is shown as it is. The library reads nothing itself: this is for the
    /// program around it.
    SourceRead(String),
    /// A line that is no well-formed command. Holds the line.
    Syntax(String),
    /// A segment that is unknown, or that cannot be used with the given index
    /// in the way the command asks. Holds the segment's name and the index.
    UnsupportedSegment(String, u16),
    /// The generator was asked for something that its own state rules out.
    InternalInvariant,
    /// A line whose command uses a segment that is unknown, or that cannot be
    /// used with the given index in the way the command asks. Holds the line,
    /// the segment's name and the index.
    UnsupportedCommand(String, String, u16),
    /// A line whose command could not be given a number of its own, because
    /// the counter has reached the last number it can hold. Holds the line.
    CounterExhausted(String),
}

/// The mathematical value of a [`TranslateError`].
pub enum ErrorView {
    SourceRead(Seq<char>),
    Syntax(Seq<char>),
    UnsupportedSegment(Seq<char>, u16),
    InternalInvariant,
    UnsupportedCommand(Seq<char>, Seq<char>, u16),
    CounterExhausted(Seq<char>),
}

impl View for TranslateError {
    type V = ErrorView;

    open spec fn view(&self) -> ErrorView {
        match self {
            TranslateError::SourceRead(report) => ErrorView::SourceRead(report@),
            TranslateError::Syntax(line) => ErrorView::Syntax(line@),
            TranslateError::UnsupportedSegment(segment, index) => ErrorView::UnsupportedSegment(
                segment@,
                *index,
            ),
            TranslateError::InternalInvariant => ErrorView::InternalInvariant,
            TranslateError::UnsupportedCommand(line, segment, index) => {
                ErrorView::UnsupportedCommand(line@, segment@, *index)
            },
            TranslateError::CounterExhausted(line) => ErrorView::CounterExhausted(line@),
        }
    }
}

/// The error that the generator's refusal `e` of the command on `line`
/// becomes in the run: an unsupported segment is told together with the
/// line; any other error stays as it is.
pub open spec fn located(e: ErrorView, line: Seq<char>) -> ErrorView {
    match e {
        ErrorView::UnsupportedSegment(segment, index) => ErrorView::UnsupportedCommand(
            line,
            segment,
            index,
        ),
        _ => e,
    }
}

/// The diagnostic for an error: the reason, and the line or segment at fault.
pub open spec fn message_text(e: ErrorView) -> Seq<char> {
    match e {
        ErrorView::SourceRead(report) => report,
        ErrorView::Syntax(line) => "syntax error: "@ + line,
        ErrorView::UnsupportedSegment(segment, index) => "unsupported segment: "@ + segment + " "@
            + decimal(index as nat),
        ErrorView::InternalInvariant => "internal invariant violated"@,
        ErrorView::UnsupportedCommand(line, segment, index) => "unsupported segment: "@ + segment
            + " "@ + decimal(index as nat) + " in line: "@ + line,
        ErrorView::CounterExhausted(line) => "no number is left for the command: "@ + line,
    }
}

impl TranslateError {
    /// The error that this refusal of the command on `line` becomes in the
    /// run: an unsupported segment is told together with the line.
    pub fn at_line(self, line: &str) -> (e: TranslateError)
        ensures
            e@ == located(self@, line@),
    {
        match self {
            TranslateError::UnsupportedSegment(segment, index) => {
                TranslateError::UnsupportedCommand(line.to_owned(), segment, index)
            },
            other => other,
        }
    }

    /// The diagnostic to show for this error.
    pub fn message(&self) -> (s: String)
        ensures
            s@ == message_text(self@),
    {
        match self {
            TranslateError::SourceRead(report) => report.clone(),
            TranslateError::Syntax(line) => {
                let mut s = "syntax error: ".to_owned();
                s.append(line.as_str());
                s
            },
            TranslateError::UnsupportedSegment(segment, index) => {
                let mut s = "unsupported segment: ".to_owned();
                s.append(segment.as_str());
                s.append(" ");
                s.append(decimal_string(*index).as_str());
                s
            },
            TranslateError::InternalInvariant => "internal invariant violated".to_owned(),
            TranslateError::UnsupportedCommand(line, segment, index) => {
                let mut s = "unsupported segment: ".to_owned();
                s.append(segment.as_str());
                s.append(" ");
                s.append(decimal_string(*index).as_str());
                s.append(" in line: ");
                s.append(line.as_str());
                s
            },
            TranslateError::CounterExhausted(line) => {
                let mut s = "no number is left for the command: ".to_owned();
                s.append(line.as_str());
                s
            },
        }
    }
}

} // verus!
