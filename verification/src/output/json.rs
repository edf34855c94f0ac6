//! One JSON object per line.

use vstd::prelude::*;

use crate::output::{Line, LineView, Output, OutputKind, Stream};

verus! {

/// Writes each message and each report as a JSON object on a line of its
/// own, all on standard output. The values are put between the quotes as
/// they are.
pub struct JsonOutput;

impl JsonOutput {
    /// A new sink of this kind.
    pub fn new() -> (out: Box<JsonOutput>) {
        Box::new(JsonOutput {  })
    }
}

impl Output for JsonOutput {
    open spec fn opening() -> Seq<LineView> {
        Seq::empty()
    }

    open spec fn message_line(kind: OutputKind, message: Seq<char>) -> LineView {
        LineView {
            stream: Stream::Stdout,
            text: "{\"type\":\"message\",\"kind\":\""@ + kind.name() + "\",\"message\":\""@
                + message + "\"}"@,
        }
    }

    open spec fn report_line(
        file: Seq<char>,
        message: Seq<char>,
        got: Seq<char>,
        expected: Seq<char>,
    ) -> LineView {
        LineView {
            stream: Stream::Stdout,
            text: "{\"type\":\"report\",\"file\":\""@ + file + "\",\"message\":\""@ + message
                + "\",\"got\":\""@ + got + "\",\"expected\":\""@ + expected + "\"}"@,
        }
    }

    open spec fn closing() -> Seq<LineView> {
        Seq::empty()
    }

    fn init(&mut self) -> (lines: Vec<Line>) {
        let lines: Vec<Line> = Vec::new();
        assert(lines.deep_view() =~= Self::opening());
        lines
    }

    fn write(&mut self, kind: OutputKind, message: String) -> (line: Line) {
        let mut text = "{\"type\":\"message\",\"kind\":\"".to_owned();
        text.append(kind.to_string().as_str());
        text.append("\",\"message\":\"");
        text.append(message.as_str());
        text.append("\"}");
        Line { stream: Stream::Stdout, text }
    }

    fn report(&mut self, file: &str, message: &str, got: &str, expected: &str) -> (line: Line) {
        let mut text = "{\"type\":\"report\",\"file\":\"".to_owned();
        text.append(file);
        text.append("\",\"message\":\"");
        text.append(message);
        text.append("\",\"got\":\"");
        text.append(got);
        text.append("\",\"expected\":\"");
        text.append(expected);
        text.append("\"}");
        Line { stream: Stream::Stdout, text }
    }

    fn end(&mut self) -> (lines: Vec<Line>) {
        let lines: Vec<Line> = Vec::new();
        assert(lines.deep_view() =~= Self::closing());
        lines
    }
}

} // verus!
