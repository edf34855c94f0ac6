//! The indexer: makes the manifest of a tree, file by file.
//!
//! The indexer touches no file. Its caller walks the tree and hands over
//! the paths of the regular files found, in the order of the walk. The
//! indexer then goes through them one by one: it decides from the path
//! alone whether the file is excluded, asks the caller to read those that
//! are not, and turns what was read into a row of the manifest. A file that
//! cannot be read is told of and passed over.
//!
//! A manifest made this way is no snapshot: a file that changes while the
//! run goes on is recorded as it was when it was read.

use vstd::prelude::*;

use crate::index::{entry_for, row_text, IndexEntry};
use crate::output::{Event, EventView, OutputKind};
use crate::path::{
    all_fit, all_fit_matcher, excluded_by, first_match, fits, fits_matcher, is_under,
    lemma_relativize_resolved, relative_part, relativize, resolved, PathError,
};
use crate::text::{decimal, decimal_text};

verus! {

/// Why indexing could not begin.
#[derive(Debug, Clone, Copy, PartialEq, Eq, Structural)]
pub enum IndexError {
    /// There is a manifest already, and overwriting it was not asked for.
    IndexAlreadyExists,
    /// An exclusion pattern is too long for the matcher.
    PatternTooLong,
    /// The manifest could not be opened for writing.
    CannotWrite,
}

impl IndexError {
    /// What there is to say of this error, about the manifest at
    /// `index_path`.
    pub open spec fn message_text(self, index_path: Seq<char>) -> Seq<char> {
        match self {
            IndexError::IndexAlreadyExists => "Index file `"@ + index_path
                + "` already exists and is left as it is."@,
            IndexError::PatternTooLong => "An exclusion pattern is too long."@,
            IndexError::CannotWrite => "Failed to open index file `"@ + index_path
                + "` for writing."@,
        }
    }

    /// The error message for this error, about the manifest at
    /// `index_path`.
    pub fn event(&self, index_path: &str) -> (event: Event)
        ensures
            event@ == (EventView::Message {
                kind: OutputKind::Error,
                text: self.message_text(index_path@),
            }),
    {
        let text = match self {
            IndexError::IndexAlreadyExists => {
                let mut text = "Index file `".to_owned();
                text.append(index_path);
                text.append("` already exists and is left as it is.");
                text
            },
            IndexError::PatternTooLong => "An exclusion pattern is too long.".to_owned(),
            IndexError::CannotWrite => {
                let mut text = "Failed to open index file `".to_owned();
                text.append(index_path);
                text.append("` for writing.");
                text
            },
        };
        Event::Message { kind: OutputKind::Error, text }
    }
}

/// What there is to say of a file whose path stopped the run.
pub open spec fn fault_text(error: PathError, path: Seq<char>) -> Seq<char> {
    match error {
        PathError::OutsideRoot => "File `"@ + path + "` does not lie under the root."@,
        PathError::TooLong => "The path of file `"@ + path + "` is too long."@,
    }
}

/// The error message for a file whose path stopped the run.
pub fn fault_event(error: PathError, path: &str) -> (event: Event)
    ensures
        event@ == (EventView::Message { kind: OutputKind::Error, text: fault_text(error, path@) }),
{
    let text = match error {
        PathError::OutsideRoot => {
            let mut text = "File `".to_owned();
            text.append(path);
            text.append("` does not lie under the root.");
            text
        },
        PathError::TooLong => {
            let mut text = "The path of file `".to_owned();
            text.append(path);
            text.append("` is too long.");
            text
        },
    };
    Event::Message { kind: OutputKind::Error, text }
}

/// The patterns that are always excluded: the content of the SDK, the
/// editor's autosaves, and any manifest.
pub open spec fn default_patterns() -> Seq<Seq<char>> {
    seq!["sdk_content/**/*.*"@, "hammer/autosave/*.*"@, "**/index.csv"@]
}

/// The patterns that are always excluded.
pub fn default_exclusions() -> (out: Vec<String>)
    ensures
        out.deep_view() == default_patterns(),
{
    let mut out: Vec<String> = Vec::new();
    out.push("sdk_content/**/*.*".to_owned());
    out.push("hammer/autosave/*.*".to_owned());
    out.push("**/index.csv".to_owned());
    assert(out.deep_view() =~= default_patterns());
    out
}

/// The patterns of a run: those of the user first, then `defaults`.
pub fn assemble_exclusions(user: Vec<String>, defaults: Vec<String>) -> (out: Vec<String>)
    ensures
        out.deep_view() == user.deep_view() + defaults.deep_view(),
{
    let mut out = user;
    let mut rest = defaults;
    let ghost before = out.deep_view();
    let ghost added = rest.deep_view();
    out.append(&mut rest);
    assert(out.deep_view() =~= before + added);
    out
}

/// What is to be done with a file that the walk found.
pub enum Verdict {
    /// Indexing cannot go on: the path is not one that the walk of this
    /// root can have found.
    Fault(PathError),
    /// The file is excluded: it is not to be read.
    Skip,
    /// The file is to be read and recorded under this relative path.
    Read(Seq<char>),
}

/// What a run of the indexer covers.
pub struct Scope {
    /// The root of the tree.
    pub root: Seq<char>,
    /// The path of the manifest itself, relative to the root.
    pub manifest: Seq<char>,
    /// The exclusion patterns.
    pub patterns: Seq<Seq<char>>,
}

/// What is to be done with the file at `candidate`, decided from its path
/// alone.
///
/// A path that is not under the root is a fault. The manifest itself is
/// skipped, whatever the patterns say. A path too long to be matched is a
/// fault. A path that one of the patterns matches is skipped. Any other is
/// to be read.
pub open spec fn verdict(scope: Scope, candidate: Seq<char>) -> Verdict {
    if !is_under(scope.root, candidate) {
        Verdict::Fault(PathError::OutsideRoot)
    } else if relative_part(scope.root, candidate) == scope.manifest {
        Verdict::Skip
    } else if !fits_matcher(relative_part(scope.root, candidate)) {
        Verdict::Fault(PathError::TooLong)
    } else if excluded_by(relative_part(scope.root, candidate), scope.patterns) {
        Verdict::Skip
    } else {
        Verdict::Read(relative_part(scope.root, candidate))
    }
}

/// What the indexer asks of its caller next.
#[derive(Debug, Clone, PartialEq, Eq)]
pub enum IndexStep {
    /// Read the file at this path and hand the outcome to
    /// [`Indexer::feed`].
    Read(String),
    /// An excluded file was passed over.
    Skipped,
    /// Indexing cannot go on, because of the file at this path.
    Fault { path: String, error: PathError },
    /// Every file has been dealt with.
    Done,
}

/// An [`IndexStep`] as a mathematical value.
pub enum IndexStepView {
    Read(Seq<char>),
    Skipped,
    Fault { path: Seq<char>, error: PathError },
    Done,
}

impl View for IndexStep {
    type V = IndexStepView;

    open spec fn view(&self) -> IndexStepView {
        match self {
            IndexStep::Read(path) => IndexStepView::Read(path@),
            IndexStep::Skipped => IndexStepView::Skipped,
            IndexStep::Fault { path, error } => IndexStepView::Fault { path: path@, error: *error },
            IndexStep::Done => IndexStepView::Done,
        }
    }
}

/// How the reading of a file went.
#[derive(Debug, Clone, PartialEq, Eq)]
pub enum ReadOutcome {
    /// The file's bytes, all of them, from one reading.
    Contents(Vec<u8>),
    /// Reading failed, for this reason.
    Failed(String),
}

/// A [`ReadOutcome`] as a mathematical value.
pub enum ReadOutcomeView {
    Contents(Seq<u8>),
    Failed(Seq<char>),
}

impl View for ReadOutcome {
    type V = ReadOutcomeView;

    open spec fn view(&self) -> ReadOutcomeView {
        match self {
            ReadOutcome::Contents(data) => ReadOutcomeView::Contents(data@),
            ReadOutcome::Failed(why) => ReadOutcomeView::Failed(why@),
        }
    }
}

/// What the indexer makes of a file that was read, or not.
#[derive(Debug, Clone, PartialEq, Eq)]
pub struct Fed {
    /// The row to append to the manifest, line feed included, if there is
    /// one.
    pub row: Option<String>,
    /// What there is to say.
    pub event: Option<Event>,
}

/// A [`Fed`] as a mathematical value.
pub struct FedView {
    pub row: Option<Seq<char>>,
    pub event: Option<EventView>,
}

impl View for Fed {
    type V = FedView;

    open spec fn view(&self) -> FedView {
        FedView {
            row: match self.row {
                Some(row) => Some(row@),
                None => None,
            },
            event: match self.event {
                Some(event) => Some(event@),
                None => None,
            },
        }
    }
}

/// A run of indexing: the files that the walk found, how far the run has
/// come, and what it has counted so far.
pub struct Indexer {
    root: String,
    manifest: String,
    patterns: Vec<String>,
    candidates: Vec<String>,
    cursor: usize,
    awaiting: Option<String>,
    count: u64,
    failed: u64,
}

/// An [`Indexer`] as a mathematical value.
pub struct IndexerView {
    /// What the run covers.
    pub scope: Scope,
    /// The paths of the files that the walk found, in its order.
    pub candidates: Seq<Seq<char>>,
    /// How many of them have been dealt with.
    pub cursor: nat,
    /// Whether the caller has been asked to read the next of them.
    pub awaiting: bool,
    /// How many rows were made.
    pub count: nat,
    /// How many files could not be read.
    pub failed: nat,
}

impl IndexerView {
    /// Whether this is a state that a run can be in: its patterns fit the
    /// matcher, and the caller is asked to read a file only if it is there
    /// and not excluded.
    pub open spec fn is_sound(self) -> bool {
        &&& all_fit_matcher(self.scope.patterns)
        &&& self.cursor <= self.candidates.len()
        &&& self.awaiting ==> self.cursor < self.candidates.len() && verdict(
            self.scope,
            self.candidates[self.cursor as int],
        ) is Read
    }
}

impl View for Indexer {
    type V = IndexerView;

    closed spec fn view(&self) -> IndexerView {
        IndexerView {
            scope: Scope {
                root: self.root@,
                manifest: self.manifest@,
                patterns: self.patterns.deep_view(),
            },
            candidates: self.candidates.deep_view(),
            cursor: self.cursor as nat,
            awaiting: self.awaiting is Some,
            count: self.count as nat,
            failed: self.failed as nat,
        }
    }
}

/// The warning that the manifest at `index_path` is there already and will
/// be overwritten.
pub open spec fn overwriting_text(index_path: Seq<char>) -> Seq<char> {
    "Index file `"@ + index_path + "` already exist, will be overwritten."@
}

/// The message that a manifest is being made at `index_path`.
pub open spec fn creating_text(index_path: Seq<char>) -> Seq<char> {
    "Creating index file at `"@ + index_path + "`"@
}

/// What there is to say when a run begins: a warning if a manifest is
/// overwritten, then where the new one is made.
pub open spec fn announced(index_path: Seq<char>, index_exists: bool) -> Seq<EventView> {
    let creating = EventView::Message { kind: OutputKind::Info, text: creating_text(index_path) };
    if index_exists {
        seq![
            EventView::Message { kind: OutputKind::Warn, text: overwriting_text(index_path) },
            creating,
        ]
    } else {
        seq![creating]
    }
}

/// The message that a file was recorded.
pub open spec fn recorded_text(path: Seq<char>) -> Seq<char> {
    "Processed file `"@ + path + "`"@
}

/// The message that a file could not be read, and why.
pub open spec fn unread_text(path: Seq<char>, why: Seq<char>) -> Seq<char> {
    "Failed to read file `"@ + path + "`: "@ + why
}

/// The message that ends a run.
pub open spec fn finished_text(count: nat, elapsed: nat) -> Seq<char> {
    "Finished processing "@ + decimal_text(count) + " files in "@ + decimal_text(elapsed) + "s!"@
}

/// The run that begins on `candidates`.
pub open spec fn started(scope: Scope, candidates: Seq<Seq<char>>) -> IndexerView {
    IndexerView { scope, candidates, cursor: 0, awaiting: false, count: 0, failed: 0 }
}

/// What [`Indexer::poll`] answers in the state `run`, and the state it
/// leaves.
///
/// The file at the cursor is judged by its path alone. An excluded file is
/// passed over without being read. A file to be read is named, and the run
/// waits for it. A path that cannot be judged stops the run where it is.
pub open spec fn index_polled(run: IndexerView) -> (IndexStepView, IndexerView) {
    if run.cursor >= run.candidates.len() {
        (IndexStepView::Done, run)
    } else {
        let candidate = run.candidates[run.cursor as int];
        match verdict(run.scope, candidate) {
            Verdict::Fault(error) => (IndexStepView::Fault { path: candidate, error }, run),
            Verdict::Skip => (
                IndexStepView::Skipped,
                IndexerView { cursor: run.cursor + 1, ..run },
            ),
            Verdict::Read(_) => (
                IndexStepView::Read(candidate),
                IndexerView { awaiting: true, ..run },
            ),
        }
    }
}

/// What [`Indexer::feed`] answers in the state `run` to the outcome of a
/// reading, and the state it leaves.
///
/// Where the run waits for a file, its bytes become a row, with size,
/// digest and checksum all taken from them, and a failure becomes an error
/// message; either way the run moves on. Where the run does not wait,
/// nothing is made of the outcome.
pub open spec fn index_fed(run: IndexerView, outcome: ReadOutcomeView) -> (FedView, IndexerView) {
    if run.awaiting && run.cursor < run.candidates.len() {
        let candidate = run.candidates[run.cursor as int];
        let relative = relative_part(run.scope.root, candidate);
        let moved = IndexerView { cursor: run.cursor + 1, awaiting: false, ..run };
        match outcome {
            ReadOutcomeView::Contents(data) => (
                FedView {
                    row: Some(row_text(entry_for(relative, data)).push('\n')),
                    event: Some(
                        EventView::Message {
                            kind: OutputKind::Info,
                            text: recorded_text(candidate),
                        },
                    ),
                },
                IndexerView { count: run.count + 1, ..moved },
            ),
            ReadOutcomeView::Failed(why) => (
                FedView {
                    row: None,
                    event: Some(
                        EventView::Message {
                            kind: OutputKind::Error,
                            text: unread_text(candidate, why),
                        },
                    ),
                },
                IndexerView { failed: run.failed + 1, ..moved },
            ),
        }
    } else {
        (FedView { row: None, event: None }, run)
    }
}

/// A file whose path matches an exclusion pattern is passed over: the
/// caller is not asked to read it, the run does not wait for it, and
/// whatever is fed to the run then makes no row. The other patterns, and
/// how many there are, make no difference.
pub proof fn lemma_excluded_never_indexed(run: IndexerView, outcome: ReadOutcomeView)
    requires
        run.is_sound(),
        run.cursor < run.candidates.len(),
        is_under(run.scope.root, run.candidates[run.cursor as int]),
        fits_matcher(relative_part(run.scope.root, run.candidates[run.cursor as int])),
        excluded_by(
            relative_part(run.scope.root, run.candidates[run.cursor as int]),
            run.scope.patterns,
        ),
    ensures
        index_polled(run).0 == IndexStepView::Skipped,
        index_polled(run).1 == (IndexerView { cursor: run.cursor + 1, ..run }),
        index_fed(run, outcome) == (FedView { row: None, event: None }, run),
{
}

/// A row is made only of a file that no exclusion pattern matches, under
/// its path relative to the root.
pub proof fn lemma_rows_are_not_excluded(run: IndexerView, outcome: ReadOutcomeView)
    requires
        run.is_sound(),
        index_fed(run, outcome).0.row is Some,
    ensures
        run.cursor < run.candidates.len(),
        !excluded_by(
            relative_part(run.scope.root, run.candidates[run.cursor as int]),
            run.scope.patterns,
        ),
        relative_part(run.scope.root, run.candidates[run.cursor as int]) != run.scope.manifest,
        outcome matches ReadOutcomeView::Contents(data) && index_fed(run, outcome).0.row == Some(
            row_text(
                entry_for(relative_part(run.scope.root, run.candidates[run.cursor as int]), data),
            ).push('\n'),
        ),
{
}

/// The manifest itself is passed over: the caller is not asked to read
/// it, whatever the patterns are.
pub proof fn lemma_manifest_never_indexed(run: IndexerView)
    requires
        run.cursor < run.candidates.len(),
        run.candidates[run.cursor as int] == resolved(run.scope.root, run.scope.manifest),
    ensures
        index_polled(run).0 == IndexStepView::Skipped,
{
    lemma_relativize_resolved(run.scope.root, run.scope.manifest);
}

impl Indexer {
    #[verifier::type_invariant]
    spec fn well_formed(&self) -> bool {
        &&& self@.is_sound()
        &&& self.count + self.failed <= self.cursor
        &&& self.awaiting matches Some(relative) ==> verdict(
            self@.scope,
            self.candidates@[self.cursor as int]@,
        ) == Verdict::Read(relative@)
    }

    /// Begins a run under `root`, with no file to go through yet. The
    /// manifest is to stand at `index_location` under the root.
    ///
    /// Fails with [`IndexError::IndexAlreadyExists`] where a manifest is
    /// there and `overwrite` is not set, whatever else holds; and with
    /// [`IndexError::PatternTooLong`] where one of `exclusions` does not
    /// fit the matcher.
    pub fn begin(
        root: &str,
        index_location: &str,
        exclusions: Vec<String>,
        index_exists: bool,
        overwrite: bool,
    ) -> (out: Result<Indexer, IndexError>)
        ensures
            index_exists && !overwrite ==> out == Err::<Indexer, IndexError>(
                IndexError::IndexAlreadyExists,
            ),
            !(index_exists && !overwrite) && !all_fit_matcher(exclusions.deep_view()) ==> out
                == Err::<Indexer, IndexError>(IndexError::PatternTooLong),
            !(index_exists && !overwrite) && all_fit_matcher(exclusions.deep_view()) ==> out is Ok
                && out->Ok_0@ == started(
                (Scope {
                    root: root@,
                    manifest: index_location@,
                    patterns: exclusions.deep_view(),
                }),
                Seq::empty(),
            ) && out->Ok_0@.is_sound(),
    {
        if index_exists && !overwrite {
            return Err(IndexError::IndexAlreadyExists);
        }
        if !all_fit(exclusions.as_slice()) {
            return Err(IndexError::PatternTooLong);
        }
        let candidates: Vec<String> = Vec::new();
        assert(candidates.deep_view() =~= Seq::<Seq<char>>::empty());
        Ok(
            Indexer {
                root: root.to_owned(),
                manifest: index_location.to_owned(),
                patterns: exclusions,
                candidates,
                cursor: 0,
                awaiting: None,
                count: 0,
                failed: 0,
            },
        )
    }

    /// Adds the files at `found` to those that the run goes through, after
    /// the ones it has already: the paths of the regular files that a walk
    /// of the root found, in the order of the walk.
    pub fn over(self, found: Vec<String>) -> (out: Indexer)
        ensures
            out@ == (IndexerView {
                candidates: self@.candidates + found.deep_view(),
                ..self@
            }),
            out@.is_sound(),
    {
        proof {
            use_type_invariant(&self);
        }
        let Indexer { root, manifest, patterns, candidates, cursor, awaiting, count, failed } =
            self;
        let ghost before = candidates.deep_view();
        let ghost added = found.deep_view();
        let mut all = candidates;
        let mut more = found;
        all.append(&mut more);
        proof {
            assert(all.deep_view() =~= before + added);
            if awaiting is Some {
                assert(all@[cursor as int] == self.candidates@[cursor as int]);
            }
        }
        Indexer { root, manifest, patterns, candidates: all, cursor, awaiting, count, failed }
    }

    /// What there is to say when a run begins on the manifest at
    /// `index_path`.
    pub fn announce(index_path: &str, index_exists: bool) -> (events: Vec<Event>)
        ensures
            events.deep_view() == announced(index_path@, index_exists),
    {
        let mut events: Vec<Event> = Vec::new();
        if index_exists {
            let mut text = "Index file `".to_owned();
            text.append(index_path);
            text.append("` already exist, will be overwritten.");
            events.push(Event::Message { kind: OutputKind::Warn, text });
        }
        let mut text = "Creating index file at `".to_owned();
        text.append(index_path);
        text.append("`");
        events.push(Event::Message { kind: OutputKind::Info, text });
        assert(events.deep_view() =~= announced(index_path@, index_exists));
        events
    }

    /// How many rows were made.
    pub fn count(&self) -> (out: u64)
        ensures
            out == self@.count,
    {
        self.count
    }

    /// How many files could not be read.
    pub fn failed(&self) -> (out: u64)
        ensures
            out == self@.failed,
    {
        self.failed
    }

    /// What the run needs next: a file to be read, or nothing more. An
    /// excluded file is passed over on the way, unread.
    pub fn poll(&mut self) -> (step: IndexStep)
        ensures
            old(self)@.is_sound(),
            final(self)@.is_sound(),
            (step@, final(self)@) == index_polled(old(self)@),
    {
        proof {
            use_type_invariant(&*self);
        }
        if self.cursor >= self.candidates.len() {
            return IndexStep::Done;
        }
        assert(self.candidates.deep_view()[self.cursor as int]
            == self.candidates@[self.cursor as int]@);
        if self.awaiting.is_some() {
            return IndexStep::Read(self.candidates[self.cursor].clone());
        }
        let relative = match relativize(self.root.as_str(), self.candidates[self.cursor].as_str()) {
            Ok(relative) => relative,
            Err(error) => {
                return IndexStep::Fault { path: self.candidates[self.cursor].clone(), error };
            },
        };
        if relative == self.manifest {
            self.cursor = self.cursor + 1;
            return IndexStep::Skipped;
        }
        if !fits(relative.as_str()) {
            return IndexStep::Fault {
                path: self.candidates[self.cursor].clone(),
                error: PathError::TooLong,
            };
        }
        if first_match(relative.as_str(), self.patterns.as_slice()).is_some() {
            self.cursor = self.cursor + 1;
            return IndexStep::Skipped;
        }
        self.awaiting = Some(relative);
        IndexStep::Read(self.candidates[self.cursor].clone())
    }

    /// Takes the outcome of the reading that [`Indexer::poll`] asked for.
    ///
    /// Where the run is not waiting for a file, nothing is made of the
    /// outcome and nothing changes.
    pub fn feed(&mut self, outcome: &ReadOutcome) -> (fed: Fed)
        ensures
            old(self)@.is_sound(),
            final(self)@.is_sound(),
            (fed@, final(self)@) == index_fed(old(self)@, outcome@),
    {
        proof {
            use_type_invariant(&*self);
        }
        let relative = match &self.awaiting {
            Some(relative) => relative.clone(),
            None => {
                return Fed { row: None, event: None };
            },
        };
        assert(self.cursor < self.candidates.len() <= usize::MAX);
        assert(self.candidates.deep_view()[self.cursor as int]
            == self.candidates@[self.cursor as int]@);
        self.awaiting = None;
        let fed = match outcome {
            ReadOutcome::Contents(data) => {
                let entry = IndexEntry::capture(relative.as_str(), data.as_slice());
                let mut text = "Processed file `".to_owned();
                text.append(self.candidates[self.cursor].as_str());
                text.append("`");
                Fed {
                    row: Some(entry.to_row()),
                    event: Some(Event::Message { kind: OutputKind::Info, text }),
                }
            },
            ReadOutcome::Failed(why) => {
                let mut text = "Failed to read file `".to_owned();
                text.append(self.candidates[self.cursor].as_str());
                text.append("`: ");
                text.append(why.as_str());
                Fed { row: None, event: Some(Event::Message { kind: OutputKind::Error, text }) }
            },
        };
        self.cursor = self.cursor + 1;
        match outcome {
            ReadOutcome::Contents(_) => {
                self.count = self.count + 1;
            },
            ReadOutcome::Failed(_) => {
                self.failed = self.failed + 1;
            },
        }
        fed
    }

    /// The message that ends the run, given how many seconds it took.
    pub fn finish(&self, elapsed_secs: u64) -> (event: Event)
        ensures
            event@ == (EventView::Message {
                kind: OutputKind::Info,
                text: finished_text(self@.count, elapsed_secs as nat),
            }),
    {
        let mut text = "Finished processing ".to_owned();
        text.append(decimal(self.count).as_str());
        text.append(" files in ");
        text.append(decimal(elapsed_secs).as_str());
        text.append("s!");
        Event::Message { kind: OutputKind::Info, text }
    }
}

} // verus!
