//! The verifier: holds a tree on disk against a manifest, row by row.
//!
//! The verifier touches no file. It reads the manifest from its text, tells
//! its caller which path to look at next, takes what the caller saw there
//! as an [`Observation`], and answers with the findings. A row of the
//! manifest that is in no state to be checked is reported and passed over;
//! a file that is gone, unreadable or changed is reported and the run goes
//! on with the next row. Where several rows are about one path, the last
//! one counts and the others are passed over with a warning.

use vstd::prelude::*;

use crate::digest::{checksum_of, crc32, digest_of, digest_text, sha256};
use crate::index::parse::{is_superseded, parsed_index, read_index, rows_weight, superseded_rows};
use crate::index::round_trip::{is_plain, lemma_entry_for_writable, lemma_index_round_trip};
use crate::index::{entry_for, index_text, row_path, EntryView, IndexEntry, Row, RowView};
use crate::output::{Event, EventView, OutputKind};
use crate::report::{Reason, Report, ReportView};
use crate::status::{exit_status, status_of};
use crate::text::{chars_of, decimal, decimal_text, lemma_hex_text_injective};

verus! {

/// What was seen on disk at the path of an entry.
#[derive(Debug, Clone, PartialEq, Eq)]
pub enum Observation {
    /// Nothing is there.
    Missing,
    /// Something is there, but reading it failed.
    Unreadable,
    /// The file's bytes, all of them.
    Contents(Vec<u8>),
}

/// An [`Observation`] as a mathematical value.
pub enum ObservationView {
    Missing,
    Unreadable,
    Contents(Seq<u8>),
}

impl View for Observation {
    type V = ObservationView;

    open spec fn view(&self) -> ObservationView {
        match self {
            Observation::Missing => ObservationView::Missing,
            Observation::Unreadable => ObservationView::Unreadable,
            Observation::Contents(data) => ObservationView::Contents(data@),
        }
    }
}

/// A report about `path` that compares nothing.
pub open spec fn plain_report(path: Seq<char>, reason: Reason) -> ReportView {
    ReportView { path, reason, observed: None, expected: None }
}

/// The report that the file has another size than `entry` says, if it has.
pub open spec fn size_finding(entry: EntryView, size: nat) -> Option<ReportView> {
    if size == entry.size {
        None
    } else {
        Some(
            ReportView {
                path: entry.path,
                reason: Reason::SizeMismatch,
                observed: Some(decimal_text(size)),
                expected: Some(decimal_text(entry.size as nat)),
            },
        )
    }
}

/// The report that the file has another digest than `entry` says, if it
/// has. Digests are compared as they are written, character by character.
pub open spec fn digest_finding(entry: EntryView, digest: Seq<char>) -> Option<ReportView> {
    if digest == entry.digest {
        None
    } else {
        Some(
            ReportView {
                path: entry.path,
                reason: Reason::DigestMismatch,
                observed: Some(digest),
                expected: Some(entry.digest),
            },
        )
    }
}

/// The report that the file has another checksum than `entry` says, if it
/// has.
pub open spec fn checksum_finding(entry: EntryView, checksum: u32) -> Option<ReportView> {
    if checksum == entry.checksum {
        None
    } else {
        Some(
            ReportView {
                path: entry.path,
                reason: Reason::ChecksumMismatch,
                observed: Some(decimal_text(checksum as nat)),
                expected: Some(decimal_text(entry.checksum as nat)),
            },
        )
    }
}

/// The one report, or none, as a sequence.
pub open spec fn listed(report: Option<ReportView>) -> Seq<ReportView> {
    match report {
        Some(report) => seq![report],
        None => Seq::empty(),
    }
}

/// What is wrong with `entry`, given the digest and the checksum of its
/// file: first the digest if it differs, then the checksum if it differs.
/// Each is compared whatever the other comparison gave.
pub open spec fn hash_findings(entry: EntryView, digest: Seq<char>, checksum: u32) -> Seq<
    ReportView,
> {
    listed(digest_finding(entry, digest)) + listed(checksum_finding(entry, checksum))
}

/// What is wrong with `entry`, given what was seen at its path.
///
/// A file that is missing or unreadable gives one report and nothing more.
/// So does a file of another size: no hash is computed over bytes that are
/// known to differ. Where the size agrees, digest and checksum are each
/// compared.
pub open spec fn findings(entry: EntryView, seen: ObservationView) -> Seq<ReportView> {
    match seen {
        ObservationView::Missing => seq![plain_report(entry.path, Reason::MissingOnDisk)],
        ObservationView::Unreadable => seq![plain_report(entry.path, Reason::ReadFailed)],
        ObservationView::Contents(data) => match size_finding(entry, data.len()) {
            Some(report) => seq![report],
            None => hash_findings(entry, digest_text(data), crc32(data)),
        },
    }
}

/// Compares the size of a file with the size that `entry` holds.
pub fn check_size(entry: &IndexEntry, size: u64) -> (report: Option<Report>)
    ensures
        report is Some == size_finding(entry@, size as nat) is Some,
        report matches Some(found) ==> size_finding(entry@, size as nat) == Some(found@),
{
    if size == entry.size {
        None
    } else {
        Some(
            Report {
                path: entry.path.clone(),
                reason: Reason::SizeMismatch,
                observed: Some(decimal(size)),
                expected: Some(decimal(entry.size)),
            },
        )
    }
}

/// Compares the digest and the checksum of a file with those that `entry`
/// holds, and reports each that differs.
pub fn check_hashes(entry: &IndexEntry, digest: String, checksum: u32) -> (reports: Vec<Report>)
    ensures
        reports.deep_view() == hash_findings(entry@, digest@, checksum),
{
    let mut reports: Vec<Report> = Vec::new();
    if !(digest == entry.digest) {
        reports.push(
            Report {
                path: entry.path.clone(),
                reason: Reason::DigestMismatch,
                observed: Some(digest),
                expected: Some(entry.digest.clone()),
            },
        );
    }
    if checksum != entry.checksum {
        reports.push(
            Report {
                path: entry.path.clone(),
                reason: Reason::ChecksumMismatch,
                observed: Some(decimal(checksum as u64)),
                expected: Some(decimal(entry.checksum as u64)),
            },
        );
    }
    assert(reports.deep_view() =~= hash_findings(entry@, digest@, checksum));
    reports
}

/// Compares `entry` with what was seen at its path and reports every
/// difference. An empty result means that the entry is verified.
///
/// The bytes of a file are hashed only where their number is the one that
/// the entry holds.
pub fn check_entry(entry: &IndexEntry, seen: &Observation) -> (reports: Vec<Report>)
    ensures
        reports.deep_view() == findings(entry@, seen@),
{
    let mut reports: Vec<Report> = Vec::new();
    match seen {
        Observation::Missing => {
            reports.push(
                Report {
                    path: entry.path.clone(),
                    reason: Reason::MissingOnDisk,
                    observed: None,
                    expected: None,
                },
            );
        },
        Observation::Unreadable => {
            reports.push(
                Report {
                    path: entry.path.clone(),
                    reason: Reason::ReadFailed,
                    observed: None,
                    expected: None,
                },
            );
        },
        Observation::Contents(data) => {
            match check_size(entry, data.len() as u64) {
                Some(report) => {
                    reports.push(report);
                },
                None => {
                    return check_hashes(
                        entry,
                        digest_of(data.as_slice()),
                        checksum_of(data.as_slice()),
                    );
                },
            }
        },
    }
    assert(reports.deep_view() =~= findings(entry@, seen@));
    reports
}

/// A file that is gone gives exactly one report, and it says so.
pub proof fn lemma_missing_file_reported(entry: EntryView)
    ensures
        findings(entry, ObservationView::Missing) == seq![
            plain_report(entry.path, Reason::MissingOnDisk),
        ],
{
}

/// A file of another length than its entry says gives exactly one report,
/// of the two lengths. Digest and checksum are not compared.
pub proof fn lemma_other_length_reported(entry: EntryView, seen: Seq<u8>)
    requires
        seen.len() != entry.size,
    ensures
        findings(entry, ObservationView::Contents(seen)) == seq![
            ReportView {
                path: entry.path,
                reason: Reason::SizeMismatch,
                observed: Some(decimal_text(seen.len())),
                expected: Some(decimal_text(entry.size as nat)),
            },
        ],
{
}

/// A file that still holds the bytes it was indexed with gives no report.
pub proof fn lemma_unchanged_file_verifies(path: Seq<char>, data: Seq<u8>)
    requires
        data.len() <= u64::MAX,
    ensures
        findings(entry_for(path, data), ObservationView::Contents(data)) == Seq::<
            ReportView,
        >::empty(),
{
    let entry = entry_for(path, data);
    assert(hash_findings(entry, digest_text(data), crc32(data)) =~= Seq::<ReportView>::empty());
}

/// A file that is written to a manifest, read back from it and verified
/// while it still holds the same bytes gives no report: it is processed.
/// The path has to be one that the format can hold.
pub proof fn lemma_round_trip_identity(path: Seq<char>, data: Seq<u8>)
    requires
        path.len() > 0,
        is_plain(path),
        data.len() <= u64::MAX,
    ensures
        parsed_index(index_text(seq![entry_for(path, data)])) == Some(
            seq![RowView::Entry(entry_for(path, data))],
        ),
        entry_events(entry_for(path, data), ObservationView::Contents(data)) == seq![
            EventView::Message { kind: OutputKind::Info, text: processed_text(path) },
        ],
{
    let entry = entry_for(path, data);
    let written = seq![entry];
    lemma_entry_for_writable(path, data);
    lemma_index_round_trip(written);
    assert(written.map_values(|entry: EntryView| RowView::Entry(entry)) =~= seq![
        RowView::Entry(entry),
    ]);
    lemma_unchanged_file_verifies(path, data);
}

/// A file whose bytes changed while their number stayed is reported twice,
/// once for its digest and once for its checksum, if the two hashes of the
/// new bytes both differ from those of the old.
pub proof fn lemma_changed_bytes_reported(path: Seq<char>, data: Seq<u8>, seen: Seq<u8>)
    requires
        data.len() <= u64::MAX,
        seen.len() == data.len(),
        sha256(seen) != sha256(data),
        crc32(seen) != crc32(data),
    ensures
        findings(entry_for(path, data), ObservationView::Contents(seen)) == seq![
            ReportView {
                path,
                reason: Reason::DigestMismatch,
                observed: Some(digest_text(seen)),
                expected: Some(digest_text(data)),
            },
            ReportView {
                path,
                reason: Reason::ChecksumMismatch,
                observed: Some(decimal_text(crc32(seen) as nat)),
                expected: Some(decimal_text(crc32(data) as nat)),
            },
        ],
{
    let entry = entry_for(path, data);
    if digest_text(seen) == digest_text(data) {
        lemma_hex_text_injective(sha256(seen), sha256(data));
    }
    assert(hash_findings(entry, digest_text(seen), crc32(seen)) =~= seq![
        digest_finding(entry, digest_text(seen))->0,
        checksum_finding(entry, crc32(seen))->0,
    ]);
}

/// Why verification could not begin.
#[derive(Debug, Clone, Copy, PartialEq, Eq, Structural)]
pub enum VerifyError {
    /// There is no manifest at the given place.
    IndexMissing,
    /// The manifest is there, but it could not be read as text.
    IndexUnreadable,
    /// The manifest does not begin with a header row.
    IndexCorrupt,
}

impl VerifyError {
    /// What there is to say of this error, about the manifest at
    /// `index_path`.
    pub open spec fn message_text(self, index_path: Seq<char>) -> Seq<char> {
        match self {
            VerifyError::IndexMissing => "Index file `"@ + index_path + "` does not exist."@,
            VerifyError::IndexUnreadable => "Failed to open index file `"@ + index_path
                + "` for reading."@,
            VerifyError::IndexCorrupt => "Index file `"@ + index_path
                + "` does not begin with a header row."@,
        }
    }

    /// The error message for this error, about the manifest at
    /// `index_path`.
    pub fn event(&self, index_path: &str) -> (event: Event)
        ensures
            event@ == (EventView::Message {
                kind: OutputKind::Error,
                text: self.message_text(index_path@),
            }),
    {
        let text = match self {
            VerifyError::IndexMissing => {
                let mut text = "Index file `".to_owned();
                text.append(index_path);
                text.append("` does not exist.");
                text
            },
            VerifyError::IndexUnreadable => {
                let mut text = "Failed to open index file `".to_owned();
                text.append(index_path);
                text.append("` for reading.");
                text
            },
            VerifyError::IndexCorrupt => {
                let mut text = "Index file `".to_owned();
                text.append(index_path);
                text.append("` does not begin with a header row.");
                text
            },
        };
        Event::Message { kind: OutputKind::Error, text }
    }
}

/// What the caller found where the manifest should be.
#[derive(Debug, Clone, PartialEq, Eq)]
pub enum IndexSource {
    /// Nothing is there.
    Missing,
    /// Something is there, but reading it as text failed.
    Unreadable,
    /// The text of the manifest.
    Text(String),
}

/// What the verifier asks of its caller next.
#[derive(Debug, Clone, PartialEq, Eq)]
pub enum Step {
    /// Look at this path, relative to the root, and hand what is there to
    /// [`Verifier::judge`].
    Observe(String),
    /// A row was passed over; this is what there is to say about it.
    Skipped(Event),
    /// Every row has been dealt with.
    Done,
}

/// A [`Step`] as a mathematical value.
pub enum StepView {
    Observe(Seq<char>),
    Skipped(EventView),
    Done,
}

impl View for Step {
    type V = StepView;

    open spec fn view(&self) -> StepView {
        match self {
            Step::Observe(path) => StepView::Observe(path@),
            Step::Skipped(event) => StepView::Skipped(event@),
            Step::Done => StepView::Done,
        }
    }
}

/// A run of verification: the rows of a manifest, how far the run has
/// come, and what it has counted so far.
pub struct Verifier {
    rows: Vec<Row>,
    superseded: Vec<bool>,
    cursor: usize,
    verified: u64,
    errors: u64,
}

/// A [`Verifier`] as a mathematical value.
pub struct VerifierView {
    /// The rows of the manifest, in their order.
    pub rows: Seq<RowView>,
    /// How many rows have been dealt with.
    pub cursor: nat,
    /// How many entries were found as the manifest describes them.
    pub verified: nat,
    /// How many reports were made and rows passed over.
    pub errors: nat,
}

impl View for Verifier {
    type V = VerifierView;

    closed spec fn view(&self) -> VerifierView {
        VerifierView {
            rows: self.rows.deep_view(),
            cursor: self.cursor as nat,
            verified: self.verified as nat,
            errors: self.errors as nat,
        }
    }
}

/// The message that an entry was found as the manifest describes it.
pub open spec fn processed_text(path: Seq<char>) -> Seq<char> {
    "Processed entry `"@ + path + "`"@
}

/// The warning that a row about `path` is passed over because a later row
/// is about the same path.
pub open spec fn superseded_text(path: Seq<char>) -> Seq<char> {
    "Entry `"@ + path + "` is replaced by a later row of the index."@
}

/// The message that the row with this number, counted from one after the
/// header, could not be read.
pub open spec fn unreadable_text(number: nat) -> Seq<char> {
    "Row "@ + decimal_text(number) + " of the index could not be parsed."@
}

/// The message that a run begins, on the manifest at `index_path`.
pub open spec fn using_text(index_path: Seq<char>) -> Seq<char> {
    "Using index file at `"@ + index_path + "`"@
}

/// The message that ends a run.
pub open spec fn summary_text(verified: nat, elapsed: nat, errors: nat) -> Seq<char> {
    "Verified "@ + decimal_text(verified) + " files in "@ + decimal_text(elapsed) + "s with "@
        + decimal_text(errors) + " errors!"@
}

/// What there is to say about an entry, given what was seen at its path:
/// its findings, or that it was processed if there are none.
pub open spec fn entry_events(entry: EntryView, seen: ObservationView) -> Seq<EventView> {
    let found = findings(entry, seen);
    if found.len() == 0 {
        seq![EventView::Message { kind: OutputKind::Info, text: processed_text(entry.path) }]
    } else {
        found.map_values(|report: ReportView| EventView::Finding(report))
    }
}

/// The run that begins on `rows`.
pub open spec fn begun(rows: Seq<RowView>) -> VerifierView {
    VerifierView { rows, cursor: 0, verified: 0, errors: 0 }
}

/// What [`Verifier::poll`] answers in the state `run`, and the state it
/// leaves.
///
/// Of the rows about one path only the last counts: a row that a later
/// one supersedes is passed over with a warning. At an entry the answer is
/// its path, and nothing changes until the caller has looked. A malformed
/// row is reported under its path, an unreadable one is told of by its
/// number; either counts as one error and the run moves on.
pub open spec fn polled(run: VerifierView) -> (StepView, VerifierView) {
    if run.cursor >= run.rows.len() {
        (StepView::Done, run)
    } else if is_superseded(run.rows, run.cursor as int) {
        (
            StepView::Skipped(
                EventView::Message {
                    kind: OutputKind::Warn,
                    text: superseded_text(row_path(run.rows[run.cursor as int])->0),
                },
            ),
            VerifierView { cursor: run.cursor + 1, ..run },
        )
    } else {
        let passed = VerifierView { cursor: run.cursor + 1, errors: run.errors + 1, ..run };
        match run.rows[run.cursor as int] {
            RowView::Entry(entry) => (StepView::Observe(entry.path), run),
            RowView::Malformed { path } => (
                StepView::Skipped(EventView::Finding(plain_report(path, Reason::RowParseError))),
                passed,
            ),
            RowView::Unreadable => (
                StepView::Skipped(
                    EventView::Message {
                        kind: OutputKind::Error,
                        text: unreadable_text(run.cursor + 1),
                    },
                ),
                passed,
            ),
        }
    }
}

/// Whether the run waits for the caller to look at the path of an entry.
pub open spec fn is_waiting(run: VerifierView) -> bool {
    &&& run.cursor < run.rows.len()
    &&& run.rows[run.cursor as int] is Entry
    &&& !is_superseded(run.rows, run.cursor as int)
}

/// What [`Verifier::judge`] answers in the state `run` to what was seen,
/// and the state it leaves.
///
/// Where the run waits at an entry, the answer is what there is to say
/// about it. The run moves on, with one more entry verified if nothing was
/// found, and one more error for each finding. Anywhere else there is
/// nothing to judge.
pub open spec fn judged(run: VerifierView, seen: ObservationView) -> (
    Seq<EventView>,
    VerifierView,
) {
    if is_waiting(run) {
        let entry = run.rows[run.cursor as int]->Entry_0;
        let found = findings(entry, seen);
        (
            entry_events(entry, seen),
            VerifierView {
                cursor: run.cursor + 1,
                verified: if found.len() == 0 {
                    run.verified + 1
                } else {
                    run.verified
                },
                errors: run.errors + found.len(),
                ..run
            },
        )
    } else {
        (Seq::empty(), run)
    }
}

impl Verifier {
    #[verifier::type_invariant]
    spec fn well_formed(&self) -> bool {
        &&& self.cursor <= self.rows@.len()
        &&& self.superseded@.len() == self.rows@.len()
        &&& forall|i: int|
            0 <= i < self.rows@.len() ==> #[trigger] self.superseded@[i] == is_superseded(
                self.rows.deep_view(),
                i,
            )
        &&& self.verified <= self.cursor
        &&& self.errors + rows_weight(self.rows.deep_view().skip(self.cursor as int)) <= u64::MAX
    }

    /// Begins a run on the manifest that the caller found.
    ///
    /// Fails with [`VerifyError::IndexMissing`] where there is no
    /// manifest, with [`VerifyError::IndexUnreadable`] where it could not
    /// be read, and with [`VerifyError::IndexCorrupt`] where its text does
    /// not begin with a header row. In each case no row is looked at.
    pub fn open(source: IndexSource) -> (out: Result<Verifier, VerifyError>)
        ensures
            match source {
                IndexSource::Missing => out == Err::<Verifier, VerifyError>(
                    VerifyError::IndexMissing,
                ),
                IndexSource::Unreadable => out == Err::<Verifier, VerifyError>(
                    VerifyError::IndexUnreadable,
                ),
                IndexSource::Text(text) => match parsed_index(text@) {
                    Some(rows) => out is Ok && out->Ok_0@ == begun(rows),
                    None => out == Err::<Verifier, VerifyError>(VerifyError::IndexCorrupt),
                },
            },
    {
        match source {
            IndexSource::Missing => Err(VerifyError::IndexMissing),
            IndexSource::Unreadable => Err(VerifyError::IndexUnreadable),
            IndexSource::Text(text) => {
                let chars = chars_of(text.as_str());
                match read_index(chars.as_slice()) {
                    Some(rows) => {
                        assert(rows.deep_view().skip(0) == rows.deep_view());
                        assert(chars@.len() == chars.len() <= usize::MAX);
                        let superseded = superseded_rows(rows.as_slice());
                        Ok(Verifier { rows, superseded, cursor: 0, verified: 0, errors: 0 })
                    },
                    None => Err(VerifyError::IndexCorrupt),
                }
            },
        }
    }

    /// The message that a run begins, on the manifest at `index_path`.
    pub fn announce(index_path: &str) -> (event: Event)
        ensures
            event@ == (EventView::Message {
                kind: OutputKind::Info,
                text: using_text(index_path@),
            }),
    {
        let mut text = "Using index file at `".to_owned();
        text.append(index_path);
        text.append("`");
        Event::Message { kind: OutputKind::Info, text }
    }

    /// How many entries were found as the manifest describes them.
    pub fn verified(&self) -> (out: u64)
        ensures
            out == self@.verified,
    {
        self.verified
    }

    /// How many reports were made and rows passed over.
    pub fn errors(&self) -> (out: u64)
        ensures
            out == self@.errors,
    {
        self.errors
    }

    /// Whether every row has been dealt with.
    pub fn is_done(&self) -> (out: bool)
        ensures
            out == (self@.cursor >= self@.rows.len()),
    {
        self.cursor >= self.rows.len()
    }

    /// What the run needs next: a path to look at, or nothing more. A row
    /// that cannot be checked is passed over on the way.
    pub fn poll(&mut self) -> (step: Step)
        ensures
            (step@, final(self)@) == polled(old(self)@),
    {
        proof {
            use_type_invariant(&*self);
        }
        if self.cursor >= self.rows.len() {
            return Step::Done;
        }
        let ghost rest = self.rows.deep_view().skip(self.cursor as int);
        proof {
            assert(rest[0] == self.rows@[self.cursor as int]@);
            assert(rest.drop_first() == self.rows.deep_view().skip(self.cursor + 1));
        }
        if self.superseded[self.cursor] {
            if let Some(path) = self.rows[self.cursor].path() {
                let mut text = "Entry `".to_owned();
                text.append(path.as_str());
                text.append("` is replaced by a later row of the index.");
                self.cursor = self.cursor + 1;
                return Step::Skipped(Event::Message { kind: OutputKind::Warn, text });
            }
        }
        let step = match &self.rows[self.cursor] {
            Row::Entry(entry) => {
                return Step::Observe(entry.path.clone());
            },
            Row::Malformed { path } => Step::Skipped(
                Event::Finding(
                    Report {
                        path: path.clone(),
                        reason: Reason::RowParseError,
                        observed: None,
                        expected: None,
                    },
                ),
            ),
            Row::Unreadable => {
                let mut text = "Row ".to_owned();
                text.append(decimal(self.cursor as u64 + 1).as_str());
                text.append(" of the index could not be parsed.");
                Step::Skipped(Event::Message { kind: OutputKind::Error, text })
            },
        };
        self.cursor = self.cursor + 1;
        self.errors = self.errors + 1;
        step
    }

    /// Takes what the caller saw at the path that [`Verifier::poll`] gave,
    /// and answers with what there is to say about the entry.
    ///
    /// Where the run is not waiting at an entry, nothing is judged and
    /// nothing changes.
    pub fn judge(&mut self, seen: &Observation) -> (events: Vec<Event>)
        ensures
            (events.deep_view(), final(self)@) == judged(old(self)@, seen@),
    {
        proof {
            use_type_invariant(&*self);
        }
        let mut events: Vec<Event> = Vec::new();
        if self.cursor >= self.rows.len() || self.superseded[self.cursor] {
            assert(events.deep_view() =~= Seq::<EventView>::empty());
            return events;
        }
        let ghost rest = self.rows.deep_view().skip(self.cursor as int);
        proof {
            assert(rest[0] == self.rows@[self.cursor as int]@);
            assert(rest.drop_first() == self.rows.deep_view().skip(self.cursor + 1));
        }
        let mut reports = match &self.rows[self.cursor] {
            Row::Entry(entry) => {
                let reports = check_entry(entry, seen);
                if reports.len() == 0 {
                    let mut text = "Processed entry `".to_owned();
                    text.append(entry.path.as_str());
                    text.append("`");
                    events.push(Event::Message { kind: OutputKind::Info, text });
                }
                reports
            },
            _ => {
                assert(events.deep_view() =~= Seq::<EventView>::empty());
                return events;
            },
        };
        let ghost entry = self.rows@[self.cursor as int]@->Entry_0;
        let ghost found = findings(entry, seen@);
        let count: u64 = reports.len() as u64;
        self.cursor = self.cursor + 1;
        if count == 0 {
            self.verified = self.verified + 1;
            assert(events.deep_view() =~= entry_events(entry, seen@));
            return events;
        }
        self.errors = self.errors + count;
        while reports.len() > 0
            invariant
                events.deep_view() + reports.deep_view().map_values(
                    |report: ReportView| EventView::Finding(report),
                ) == found.map_values(|report: ReportView| EventView::Finding(report)),
            decreases reports.len(),
        {
            let ghost before = events.deep_view();
            let ghost left = reports.deep_view();
            let ghost wrap = |report: ReportView| EventView::Finding(report);
            let report = reports.remove(0);
            events.push(Event::Finding(report));
            proof {
                assert(reports.deep_view() =~= left.drop_first());
                assert(events.deep_view() =~= before.push(wrap(left[0])));
                assert(left.map_values(wrap) =~= seq![wrap(left[0])] + left.drop_first().map_values(
                    wrap,
                ));
                assert(before.push(wrap(left[0])) + left.drop_first().map_values(wrap) =~= before
                    + left.map_values(wrap));
            }
        }
        assert(events.deep_view() =~= found.map_values(
            |report: ReportView| EventView::Finding(report),
        ));
        events
    }

    /// The message that ends the run, given how many seconds it took.
    pub fn finish(&self, elapsed_secs: u64) -> (event: Event)
        ensures
            event@ == (EventView::Message {
                kind: OutputKind::Info,
                text: summary_text(self@.verified, elapsed_secs as nat, self@.errors),
            }),
    {
        let mut text = "Verified ".to_owned();
        text.append(decimal(self.verified).as_str());
        text.append(" files in ");
        text.append(decimal(elapsed_secs).as_str());
        text.append("s with ");
        text.append(decimal(self.errors).as_str());
        text.append(" errors!");
        Event::Message { kind: OutputKind::Info, text }
    }

    /// The exit status of the run: clean if it counted no error, failed
    /// otherwise.
    pub fn exit_code(&self) -> (code: i32)
        ensures
            code == status_of(self@.errors),
    {
        exit_status(self.errors)
    }
}

} // verus!
