//! The manifest: its rows as values, and as text.
//!
//! ```text
//! path, size, digest, checksum
//! docs/readme.txt, 120, <64 hexadecimal digits>, 3421780262
//! ```
//!
//! The manifest begins with a header row, and one row per file follows. The
//! fields of a row are separated by a comma and one space, and rows end
//! with a line feed. A path that holds a line feed or a comma followed by a
//! space cannot be written in this format.
//!
//! This module holds the rows and how they are written; [`parse`] reads
//! them, and [`round_trip`] proves that what was written is read back.

use vstd::prelude::*;

use crate::digest::{crc32, digest_text, fingerprint, is_digest_shaped};
use crate::text::{decimal, decimal_text};

pub mod parse;
pub mod round_trip;

verus! {

/// One row of the manifest.
#[derive(Debug, Clone, PartialEq, Eq)]
pub struct IndexEntry {
    /// The file's path relative to the root, with `/` between segments.
    pub path: String,
    /// The number of bytes in the file.
    pub size: u64,
    /// The SHA-256 digest of the file's bytes, in lowercase hexadecimal.
    pub digest: String,
    /// The CRC-32 checksum of the file's bytes.
    pub checksum: u32,
}

/// An [`IndexEntry`] as a mathematical value.
pub struct EntryView {
    pub path: Seq<char>,
    pub size: u64,
    pub digest: Seq<char>,
    pub checksum: u32,
}

impl View for IndexEntry {
    type V = EntryView;

    open spec fn view(&self) -> EntryView {
        EntryView {
            path: self.path@,
            size: self.size,
            digest: self.digest@,
            checksum: self.checksum,
        }
    }
}

impl DeepView for IndexEntry {
    type V = EntryView;

    open spec fn deep_view(&self) -> EntryView {
        self@
    }
}

/// What one line of the manifest turned out to be.
#[derive(Debug, Clone, PartialEq, Eq)]
pub enum Row {
    /// A well-formed row.
    Entry(IndexEntry),
    /// A malformed row whose path can still be told.
    Malformed { path: String },
    /// A line from which not even a path can be told.
    Unreadable,
}

/// A [`Row`] as a mathematical value.
pub enum RowView {
    Entry(EntryView),
    Malformed { path: Seq<char> },
    Unreadable,
}

impl View for Row {
    type V = RowView;

    open spec fn view(&self) -> RowView {
        match self {
            Row::Entry(entry) => RowView::Entry(entry@),
            Row::Malformed { path } => RowView::Malformed { path: path@ },
            Row::Unreadable => RowView::Unreadable,
        }
    }
}

impl DeepView for Row {
    type V = RowView;

    open spec fn deep_view(&self) -> RowView {
        self@
    }
}

/// The path that a row is about, if it tells one.
pub open spec fn row_path(row: RowView) -> Option<Seq<char>> {
    match row {
        RowView::Entry(entry) => Some(entry.path),
        RowView::Malformed { path } => Some(path),
        RowView::Unreadable => None,
    }
}

impl Row {
    /// The path that this row is about, if it tells one.
    pub fn path(&self) -> (out: Option<&String>)
        ensures
            out is Some == row_path(self@) is Some,
            out matches Some(path) ==> row_path(self@) == Some(path@),
    {
        match self {
            Row::Entry(entry) => Some(&entry.path),
            Row::Malformed { path } => Some(path),
            Row::Unreadable => None,
        }
    }
}

/// The entry that describes a file at `path` with the contents `data`.
pub open spec fn entry_for(path: Seq<char>, data: Seq<u8>) -> EntryView {
    EntryView {
        path,
        size: data.len() as u64,
        digest: digest_text(data),
        checksum: crc32(data),
    }
}

/// The header row, without its line feed.
pub open spec fn header_text() -> Seq<char> {
    "path, size, digest, checksum"@
}

/// What stands between two fields of a row.
pub open spec fn separator() -> Seq<char> {
    seq![',', ' ']
}

/// The row of `entry`, without its line feed.
pub open spec fn row_text(entry: EntryView) -> Seq<char> {
    entry.path + separator() + decimal_text(entry.size as nat) + separator() + entry.digest
        + separator() + decimal_text(entry.checksum as nat)
}

/// The rows of `entries`, each with its line feed, one after the other.
pub open spec fn rows_text(entries: Seq<EntryView>) -> Seq<char>
    decreases entries.len(),
{
    if entries.len() == 0 {
        Seq::empty()
    } else {
        row_text(entries[0]).push('\n') + rows_text(entries.drop_first())
    }
}

/// The whole manifest of `entries`: the header row, then their rows.
pub open spec fn index_text(entries: Seq<EntryView>) -> Seq<char> {
    header_text().push('\n') + rows_text(entries)
}

impl IndexEntry {
    /// The entry of the file at `path` whose contents are `data`: size,
    /// digest and checksum are all taken from these same bytes.
    pub fn capture(path: &str, data: &[u8]) -> (entry: IndexEntry)
        ensures
            entry@ == entry_for(path@, data@),
            is_digest_shaped(entry.digest@),
    {
        let print = fingerprint(data);
        IndexEntry {
            path: path.to_owned(),
            size: print.size,
            digest: print.digest,
            checksum: print.checksum,
        }
    }

    /// The row of this entry as it is written to the manifest, line feed
    /// included.
    pub fn to_row(&self) -> (row: String)
        ensures
            row@ == row_text(self@).push('\n'),
    {
        proof {
            reveal_strlit(", ");
            assert(", "@ == separator());
        }
        let mut row = self.path.clone();
        row.append(", ");
        row.append(decimal(self.size).as_str());
        row.append(", ");
        row.append(self.digest.as_str());
        row.append(", ");
        row.append(decimal(self.checksum as u64).as_str());
        row.push('\n');
        row
    }
}

/// The header row as it is written to the manifest, line feed included.
pub fn header_row() -> (row: String)
    ensures
        row@ == header_text().push('\n'),
{
    let mut row = "path, size, digest, checksum".to_owned();
    row.push('\n');
    row
}

/// A row added after the others is written after theirs.
pub proof fn lemma_rows_text_push(entries: Seq<EntryView>, entry: EntryView)
    ensures
        rows_text(entries.push(entry)) == rows_text(entries) + row_text(entry).push('\n'),
    decreases entries.len(),
{
    let grown = entries.push(entry);
    let last = row_text(entry).push('\n');
    if entries.len() == 0 {
        assert(grown[0] == entry);
        assert(rows_text(grown.drop_first()) == Seq::<char>::empty());
        assert(last + Seq::<char>::empty() == last);
        assert(Seq::<char>::empty() + last == last);
    } else {
        assert(grown[0] == entries[0]);
        assert(grown.drop_first() == entries.drop_first().push(entry));
        lemma_rows_text_push(entries.drop_first(), entry);
        let first = row_text(entries[0]).push('\n');
        let middle = rows_text(entries.drop_first());
        assert(first + (middle + last) == (first + middle) + last);
    }
}

/// The whole manifest of `entries` as it is written: the header row, then
/// the row of each entry, in their order.
pub fn write_index(entries: &[IndexEntry]) -> (text: String)
    ensures
        text@ == index_text(entries.deep_view()),
{
    let mut text = header_row();
    let ghost all = entries.deep_view();
    let mut i: usize = 0;
    while i < entries.len()
        invariant
            i <= entries@.len(),
            all == entries.deep_view(),
            text@ == index_text(all.take(i as int)),
        decreases entries@.len() - i,
    {
        let row = entries[i].to_row();
        proof {
            assert(all[i as int] == entries@[i as int]@);
            assert(all.take(i + 1) == all.take(i as int).push(all[i as int]));
            lemma_rows_text_push(all.take(i as int), all[i as int]);
            let head = header_text().push('\n');
            let before = rows_text(all.take(i as int));
            assert((head + before) + row@ == head + (before + row@));
        }
        text.append(row.as_str());
        i += 1;
    }
    assert(all.take(i as int) == all);
    text
}

} // verus!
