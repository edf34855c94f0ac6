//! Plain text for a reader at a terminal.

use vstd::prelude::*;

use crate::output::{Line, LineView, Output, OutputKind, Stream};

verus! {

/// Writes messages as `Info: ...`, `Warn: ...` and `Error: ...`, and
/// reports as one sentence each. Only information goes to standard output;
/// warnings, errors and reports go to standard error.
pub struct SimpleOutput;

impl SimpleOutput {
    /// A new sink of this kind.
    pub fn new() -> (out: Box<SimpleOutput>) {
        Box::new(SimpleOutput {  })
    }

    /// What a message of this kind begins with.
    pub open spec fn prefix(kind: OutputKind) -> Seq<char> {
        match kind {
            OutputKind::Info => "Info: "@,
            OutputKind::Warn => "Warn: "@,
            OutputKind::Error => "Error: "@,
        }
    }
}

impl Output for SimpleOutput {
    open spec fn opening() -> Seq<LineView> {
        Seq::empty()
    }

    open spec fn message_line(kind: OutputKind, message: Seq<char>) -> LineView {
        LineView {
            stream: if kind == OutputKind::Info {
                Stream::Stdout
            } else {
                Stream::Stderr
            },
            text: SimpleOutput::prefix(kind) + message,
        }
    }

    open spec fn report_line(
        file: Seq<char>,
        message: Seq<char>,
        got: Seq<char>,
        expected: Seq<char>,
    ) -> LineView {
        LineView { stream: Stream::Stderr, text: "In file `"@ + file + "`: "@ + message }
    }

    open spec fn closing() -> Seq<LineView> {
        Seq::empty()
    }

    fn init(&mut self) -> (lines: Vec<Line>) {
        let lines: Vec<Line> = Vec::new();
        assert(lines.deep_view() =~= Self::opening());
        lines
    }

    fn write(&mut self, kind: OutputKind, message: String) -> (line: Line) {
        match kind {
            OutputKind::Info => {
                let mut text = "Info: ".to_owned();
                text.append(message.as_str());
                Line { stream: Stream::Stdout, text }
            },
            OutputKind::Warn => {
                let mut text = "Warn: ".to_owned();
                text.append(message.as_str());
                Line { stream: Stream::Stderr, text }
            },
            OutputKind::Error => {
                let mut text = "Error: ".to_owned();
                text.append(message.as_str());
                Line { stream: Stream::Stderr, text }
            },
        }
    }

    fn report(&mut self, file: &str, message: &str, _got: &str, _expected: &str) -> (line: Line) {
        let mut text = "In file `".to_owned();
        text.append(file);
        text.append("`: ");
        text.append(message);
        Line { stream: Stream::Stderr, text }
    }

    fn end(&mut self) -> (lines: Vec<Line>) {
        let lines: Vec<Line> = Vec::new();
        assert(lines.deep_view() =~= Self::closing());
        lines
    }
}

} // verus!
