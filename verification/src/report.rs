//! Reports: what verification found wrong with one row of the manifest.

use vstd::prelude::*;

verus! {

/// Why a row of the manifest did not verify.
#[derive(Debug, Clone, Copy, PartialEq, Eq, Structural)]
pub enum Reason {
    /// The file is not on disk.
    MissingOnDisk,
    /// The file is there but could not be read.
    ReadFailed,
    /// The file has another length than the manifest says.
    SizeMismatch,
    /// The file has another SHA-256 digest than the manifest says.
    DigestMismatch,
    /// The file has another CRC-32 checksum than the manifest says.
    ChecksumMismatch,
    /// The row itself is malformed.
    RowParseError,
}

impl Reason {
    /// The sentence that tells a reader of this reason.
    pub open spec fn message_text(self) -> Seq<char> {
        match self {
            Reason::MissingOnDisk => "Entry doesn't exist on disk."@,
            Reason::ReadFailed => "Failed to read file."@,
            Reason::SizeMismatch => "Sizes don't match."@,
            Reason::DigestMismatch => "Content sha256 doesn't match."@,
            Reason::ChecksumMismatch => "Content crc32 doesn't match."@,
            Reason::RowParseError => "Index row is malformed."@,
        }
    }

    /// The sentence that tells a reader of this reason.
    pub fn message(&self) -> (out: &'static str)
        ensures
            out@ == self.message_text(),
    {
        match self {
            Reason::MissingOnDisk => "Entry doesn't exist on disk.",
            Reason::ReadFailed => "Failed to read file.",
            Reason::SizeMismatch => "Sizes don't match.",
            Reason::DigestMismatch => "Content sha256 doesn't match.",
            Reason::ChecksumMismatch => "Content crc32 doesn't match.",
            Reason::RowParseError => "Index row is malformed.",
        }
    }
}

/// One finding of verification.
#[derive(Debug, Clone, PartialEq, Eq)]
pub struct Report {
    /// The path of the row, relative to the root.
    pub path: String,
    /// What is wrong.
    pub reason: Reason,
    /// What was found on disk, where the reason compares two values.
    pub observed: Option<String>,
    /// What the manifest holds, where the reason compares two values.
    pub expected: Option<String>,
}

/// A [`Report`] as a mathematical value.
pub struct ReportView {
    pub path: Seq<char>,
    pub reason: Reason,
    pub observed: Option<Seq<char>>,
    pub expected: Option<Seq<char>>,
}

/// The text of an optional string.
pub open spec fn text_of(value: Option<String>) -> Option<Seq<char>> {
    match value {
        Some(text) => Some(text@),
        None => None,
    }
}

impl View for Report {
    type V = ReportView;

    open spec fn view(&self) -> ReportView {
        ReportView {
            path: self.path@,
            reason: self.reason,
            observed: text_of(self.observed),
            expected: text_of(self.expected),
        }
    }
}

impl DeepView for Report {
    type V = ReportView;

    open spec fn deep_view(&self) -> ReportView {
        self@
    }
}

} // verus!
