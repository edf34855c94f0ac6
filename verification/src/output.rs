//! The output sinks: how messages and reports become lines of text.
//!
//! A sink renders; it does not print. Each of its methods hands back the
//! lines to be written, each with the stream it belongs on, and the caller
//! writes them. The engines know nothing of the format: they produce
//! [`Event`]s, and [`deliver`] hands an event to whichever sink was chosen.

use vstd::prelude::*;

use crate::report::{Report, ReportView};

pub mod csv;
pub mod json;
pub mod simple;

pub use crate::output::csv::CsvOutput;
pub use crate::output::json::JsonOutput;
pub use crate::output::simple::SimpleOutput;

verus! {

/// How weighty a message is.
#[derive(Debug, Clone, Copy, PartialEq, Eq, Structural)]
pub enum OutputKind {
    /// What happened, for those who want to follow.
    Info,
    /// Something that may not be what was meant.
    Warn,
    /// Something that went wrong.
    Error,
}

impl OutputKind {
    /// The name of this kind in lower case.
    pub open spec fn name(self) -> Seq<char> {
        match self {
            OutputKind::Info => "info"@,
            OutputKind::Warn => "warn"@,
            OutputKind::Error => "error"@,
        }
    }

    /// The name of this kind in lower case: `info`, `warn` or `error`.
    pub fn to_string(&self) -> (out: String)
        ensures
            out@ == self.name(),
    {
        match self {
            OutputKind::Info => "info".to_owned(),
            OutputKind::Warn => "warn".to_owned(),
            OutputKind::Error => "error".to_owned(),
        }
    }
}

/// Where a line is to be written.
#[derive(Debug, Clone, Copy, PartialEq, Eq, Structural)]
pub enum Stream {
    /// Standard output.
    Stdout,
    /// Standard error.
    Stderr,
}

/// One line of output, without its line feed.
#[derive(Debug, Clone, PartialEq, Eq)]
pub struct Line {
    pub stream: Stream,
    pub text: String,
}

/// A [`Line`] as a mathematical value.
pub struct LineView {
    pub stream: Stream,
    pub text: Seq<char>,
}

impl View for Line {
    type V = LineView;

    open spec fn view(&self) -> LineView {
        LineView { stream: self.stream, text: self.text@ }
    }
}

impl DeepView for Line {
    type V = LineView;

    open spec fn deep_view(&self) -> LineView {
        self@
    }
}

/// A sink for what the engines have to say.
///
/// The four spec functions say what a sink of this type writes; the four
/// methods write it. A sink is called in this order: `init` once, then
/// `write` and `report` as often as needed, then `end` once.
pub trait Output {
    /// The lines written before anything else.
    spec fn opening() -> Seq<LineView>;

    /// The line of a message.
    spec fn message_line(kind: OutputKind, message: Seq<char>) -> LineView;

    /// The line of a report about `file`.
    spec fn report_line(
        file: Seq<char>,
        message: Seq<char>,
        got: Seq<char>,
        expected: Seq<char>,
    ) -> LineView;

    /// The lines written after everything else.
    spec fn closing() -> Seq<LineView>;

    /// Starts the output.
    fn init(&mut self) -> (lines: Vec<Line>)
        ensures
            lines.deep_view() == Self::opening(),
    ;

    /// Renders a message.
    fn write(&mut self, kind: OutputKind, message: String) -> (line: Line)
        ensures
            line@ == Self::message_line(kind, message@),
    ;

    /// Renders a report about `file`: what is wrong, what was found and
    /// what was expected.
    fn report(&mut self, file: &str, message: &str, got: &str, expected: &str) -> (line: Line)
        ensures
            line@ == Self::report_line(file@, message@, got@, expected@),
    ;

    /// Ends the output.
    fn end(&mut self) -> (lines: Vec<Line>)
        ensures
            lines.deep_view() == Self::closing(),
    ;
}

/// What an engine has to say: a message, or a finding of verification.
#[derive(Debug, Clone, PartialEq, Eq)]
pub enum Event {
    /// A message for the reader.
    Message { kind: OutputKind, text: String },
    /// Something that verification found wrong.
    Finding(Report),
}

/// An [`Event`] as a mathematical value.
pub enum EventView {
    Message { kind: OutputKind, text: Seq<char> },
    Finding(ReportView),
}

impl View for Event {
    type V = EventView;

    open spec fn view(&self) -> EventView {
        match self {
            Event::Message { kind, text } => EventView::Message { kind: *kind, text: text@ },
            Event::Finding(report) => EventView::Finding(report@),
        }
    }
}

impl DeepView for Event {
    type V = EventView;

    open spec fn deep_view(&self) -> EventView {
        self@
    }
}

/// What stands in a report where there is no value.
pub open spec fn absent() -> Seq<char> {
    "null"@
}

/// A value of a report, or `null` where there is none.
pub open spec fn shown(value: Option<Seq<char>>) -> Seq<char> {
    match value {
        Some(text) => text,
        None => absent(),
    }
}

/// The line that a sink of type `O` writes for `event`.
pub open spec fn rendered<O: Output>(event: EventView) -> LineView {
    match event {
        EventView::Message { kind, text } => O::message_line(kind, text),
        EventView::Finding(report) => O::report_line(
            report.path,
            report.reason.message_text(),
            shown(report.observed),
            shown(report.expected),
        ),
    }
}

/// Hands `event` to the sink and gives back the line to write.
///
/// A message goes to `write`. A finding goes to `report`, with the sentence
/// of its reason, and with `null` in place of a value that it does not
/// have.
pub fn deliver<O: Output>(out: &mut O, event: Event) -> (line: Line)
    ensures
        line@ == rendered::<O>(event@),
{
    match event {
        Event::Message { kind, text } => out.write(kind, text),
        Event::Finding(report) => {
            let got: &str = match &report.observed {
                Some(text) => text.as_str(),
                None => "null",
            };
            let expected: &str = match &report.expected {
                Some(text) => text.as_str(),
                None => "null",
            };
            out.report(report.path.as_str(), report.reason.message(), got, expected)
        },
    }
}

} // verus!
