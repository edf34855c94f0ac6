//! Comma-separated values, one record per line.

use vstd::prelude::*;

use crate::output::{Line, LineView, Output, OutputKind, Stream};

verus! {

/// Writes a header, then each message and each report as a record of
/// quoted values, all on standard output. The values are put between the
/// quotes as they are.
pub struct CsvOutput;

impl CsvOutput {
    /// A new sink of this kind.
    pub fn new() -> (out: Box<CsvOutput>) {
        Box::new(CsvOutput {  })
    }

    /// The header of the records.
    pub open spec fn header() -> Seq<char> {
        "type,context,message,got?,expected?"@
    }
}

impl Output for CsvOutput {
    open spec fn opening() -> Seq<LineView> {
        seq![LineView { stream: Stream::Stdout, text: CsvOutput::header() }]
    }

    open spec fn message_line(kind: OutputKind, message: Seq<char>) -> LineView {
        LineView {
            stream: Stream::Stdout,
            text: "\"message\",\""@ + kind.name() + "\",\""@ + message + "\""@,
        }
    }

    open spec fn report_line(
        file: Seq<char>,
        message: Seq<char>,
        got: Seq<char>,
        expected: Seq<char>,
    ) -> LineView {
        LineView {
            stream: Stream::Stdout,
            text: "\"report\",\""@ + file + "\",\""@ + message + "\",\""@ + got + "\",\""@
                + expected + "\""@,
        }
    }

    open spec fn closing() -> Seq<LineView> {
        Seq::empty()
    }

    fn init(&mut self) -> (lines: Vec<Line>) {
        let mut lines: Vec<Line> = Vec::new();
        let text = "type,context,message,got?,expected?".to_owned();
        lines.push(Line { stream: Stream::Stdout, text });
        assert(lines.deep_view() =~= Self::opening());
        lines
    }

    fn write(&mut self, kind: OutputKind, message: String) -> (line: Line) {
        let mut text = "\"message\",\"".to_owned();
        text.append(kind.to_string().as_str());
        text.append("\",\"");
        text.append(message.as_str());
        text.append("\"");
        Line { stream: Stream::Stdout, text }
    }

    fn report(&mut self, file: &str, message: &str, got: &str, expected: &str) -> (line: Line) {
        let mut text = "\"report\",\"".to_owned();
        text.append(file);
        text.append("\",\"");
        text.append(message);
        text.append("\",\"");
        text.append(got);
        text.append("\",\"");
        text.append(expected);
        text.append("\"");
        Line { stream: Stream::Stdout, text }
    }

    fn end(&mut self) -> (lines: Vec<Line>) {
        let lines: Vec<Line> = Vec::new();
        assert(lines.deep_view() =~= Self::closing());
        lines
    }
}

} // verus!
