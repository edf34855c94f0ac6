//! What holds of whole runs.
//!
//! The indexer and the verifier are driven step by step by a caller that
//! does the reading. This module says what such a caller does, as spec
//! functions that run a state to its end against a disk, and proves what
//! the two engines then guarantee: which rows a run of the indexer writes,
//! and what a run of the verifier counts.

use vstd::prelude::*;

use crate::create::{
    index_fed, index_polled, started, verdict, IndexStepView, IndexerView, ReadOutcomeView, Scope,
    Verdict,
};
use crate::index::parse::{is_superseded, is_told_from, parsed_index};
use crate::index::round_trip::{
    is_plain, is_writable, lemma_entry_for_writable, lemma_index_round_trip,
};
use crate::index::{
    entry_for, header_text, index_text, row_path, rows_text, EntryView, RowView,
};
use crate::path::{excluded_by, lemma_resolved_relative_part, relative_part, resolved};
use crate::output::EventView;
use crate::report::{Reason, ReportView};
use crate::verify::{
    begun, entry_events, findings, judged, lemma_unchanged_file_verifies, plain_report, polled,
    ObservationView, StepView, VerifierView,
};

verus! {

/// The state in which a run of the verifier ends, when the caller sees
/// `disk(path)` at each path that it is asked to look at.
pub open spec fn verified_to_end(
    run: VerifierView,
    disk: spec_fn(Seq<char>) -> ObservationView,
) -> VerifierView
    decreases run.rows.len() - run.cursor,
{
    if run.cursor >= run.rows.len() {
        run
    } else {
        match polled(run).0 {
            StepView::Observe(path) => verified_to_end(judged(run, disk(path)).1, disk),
            _ => verified_to_end(polled(run).1, disk),
        }
    }
}

/// Whether the row at `place` gives no error: a later row supersedes it,
/// or it is an entry that the disk agrees with.
pub open spec fn is_clean_row(
    rows: Seq<RowView>,
    place: int,
    disk: spec_fn(Seq<char>) -> ObservationView,
) -> bool {
    ||| is_superseded(rows, place)
    ||| rows[place] matches RowView::Entry(entry) && findings(entry, disk(entry.path)).len() == 0
}

/// How many of the rows from `from` on count: those that no later row
/// supersedes.
pub open spec fn rows_that_count(rows: Seq<RowView>, from: int) -> nat
    decreases rows.len() - from,
{
    if from < 0 || from >= rows.len() {
        0
    } else if is_superseded(rows, from) {
        rows_that_count(rows, from + 1)
    } else {
        1 + rows_that_count(rows, from + 1)
    }
}

/// Whether no two rows are about the same path.
pub open spec fn has_distinct_paths(rows: Seq<RowView>) -> bool {
    forall|i: int, j: int|
        0 <= i < j < rows.len() && row_path(#[trigger] rows[i]) is Some ==> row_path(rows[i])
            != row_path(#[trigger] rows[j])
}

/// Where no two rows are about the same path, every row counts.
pub proof fn lemma_distinct_rows_count(rows: Seq<RowView>, from: int)
    requires
        has_distinct_paths(rows),
        0 <= from <= rows.len(),
    ensures
        rows_that_count(rows, from) == rows.len() - from,
    decreases rows.len() - from,
{
    if from < rows.len() {
        lemma_distinct_rows_count(rows, from + 1);
        if is_superseded(rows, from) {
            let path = row_path(rows[from])->0;
            let later = choose|later: int|
                from + 1 <= later < rows.len() && row_path(#[trigger] rows[later]) == Some(path);
            assert(row_path(rows[from]) != row_path(rows[later]));
        }
    }
}

/// A run comes to the end of its rows, and never takes an error back.
pub proof fn lemma_run_ends(run: VerifierView, disk: spec_fn(Seq<char>) -> ObservationView)
    requires
        run.cursor <= run.rows.len(),
    ensures
        verified_to_end(run, disk).rows == run.rows,
        verified_to_end(run, disk).cursor == run.rows.len(),
        verified_to_end(run, disk).errors >= run.errors,
        verified_to_end(run, disk).verified >= run.verified,
    decreases run.rows.len() - run.cursor,
{
    if run.cursor < run.rows.len() {
        match polled(run).0 {
            StepView::Observe(path) => lemma_run_ends(judged(run, disk(path)).1, disk),
            _ => lemma_run_ends(polled(run).1, disk),
        }
    }
}

/// A run counts no error exactly when every row it goes through is
/// superseded or is an entry that the disk agrees with; and then it counts
/// as verified every row that is not superseded.
pub proof fn lemma_clean_run(run: VerifierView, disk: spec_fn(Seq<char>) -> ObservationView)
    requires
        run.cursor <= run.rows.len(),
    ensures
        verified_to_end(run, disk).errors == run.errors <==> forall|i: int|
            run.cursor <= i < run.rows.len() ==> is_clean_row(run.rows, i, disk),
        verified_to_end(run, disk).errors == run.errors ==> verified_to_end(run, disk).verified
            == run.verified + rows_that_count(run.rows, run.cursor as int),
    decreases run.rows.len() - run.cursor,
{
    if run.cursor < run.rows.len() {
        let next = match polled(run).0 {
            StepView::Observe(path) => judged(run, disk(path)).1,
            _ => polled(run).1,
        };
        assert(verified_to_end(run, disk) == verified_to_end(next, disk));
        lemma_clean_run(next, disk);
        lemma_run_ends(next, disk);
        let here = run.cursor as int;
        if is_clean_row(run.rows, here, disk) {
            assert(next.errors == run.errors);
            if verified_to_end(run, disk).errors == run.errors {
                assert forall|i: int| run.cursor <= i < run.rows.len() implies is_clean_row(
                    run.rows,
                    i,
                    disk,
                ) by {
                    if i > here {
                        assert(next.cursor <= i);
                    }
                }
            }
        } else {
            assert(next.errors > run.errors);
        }
    }
}

/// Everything that a run of the verifier says from the state `run` on,
/// in its order, when the caller sees `disk(path)` at each path that it is
/// asked to look at.
pub open spec fn said_to_end(
    run: VerifierView,
    disk: spec_fn(Seq<char>) -> ObservationView,
) -> Seq<EventView>
    decreases run.rows.len() - run.cursor,
{
    if run.cursor >= run.rows.len() {
        Seq::empty()
    } else {
        match polled(run).0 {
            StepView::Observe(path) => judged(run, disk(path)).0 + said_to_end(
                judged(run, disk(path)).1,
                disk,
            ),
            StepView::Skipped(event) => seq![event] + said_to_end(polled(run).1, disk),
            StepView::Done => Seq::empty(),
        }
    }
}

/// The findings among `events` that are about `path`, in their order.
pub open spec fn findings_about(events: Seq<EventView>, path: Seq<char>) -> Seq<ReportView>
    decreases events.len(),
{
    if events.len() == 0 {
        Seq::empty()
    } else {
        let rest = findings_about(events.drop_first(), path);
        match events[0] {
            EventView::Finding(report) => if report.path == path {
                seq![report] + rest
            } else {
                rest
            },
            _ => rest,
        }
    }
}

/// What is wrong with a row, taken by itself: the findings of an entry,
/// or that the row is malformed.
pub open spec fn row_findings(
    row: RowView,
    disk: spec_fn(Seq<char>) -> ObservationView,
) -> Seq<ReportView> {
    match row {
        RowView::Entry(entry) => findings(entry, disk(entry.path)),
        RowView::Malformed { path } => seq![plain_report(path, Reason::RowParseError)],
        RowView::Unreadable => Seq::empty(),
    }
}

/// The findings about a path among two runs of events are those among the
/// first, then those among the second.
pub proof fn lemma_findings_about_concat(
    first: Seq<EventView>,
    second: Seq<EventView>,
    path: Seq<char>,
)
    ensures
        findings_about(first + second, path) == findings_about(first, path) + findings_about(
            second,
            path,
        ),
    decreases first.len(),
{
    if first.len() == 0 {
        assert(first + second == second);
        assert(findings_about(first, path) + findings_about(second, path) == findings_about(
            second,
            path,
        ));
    } else {
        let all = first + second;
        assert(all[0] == first[0]);
        assert(all.drop_first() == first.drop_first() + second);
        lemma_findings_about_concat(first.drop_first(), second, path);
        let rest = findings_about(first.drop_first(), path);
        let tail = findings_about(second, path);
        match first[0] {
            EventView::Finding(report) => {
                if report.path == path {
                    assert((seq![report] + rest) + tail == seq![report] + (rest + tail));
                }
            },
            _ => {},
        }
    }
}

/// What is said about an entry holds its findings, all about its own path,
/// and no other finding.
pub proof fn lemma_findings_about_entry(entry: EntryView, seen: ObservationView, path: Seq<char>)
    ensures
        findings_about(entry_events(entry, seen), path) == if entry.path == path {
            findings(entry, seen)
        } else {
            Seq::empty()
        },
{
    let found = findings(entry, seen);
    let said = entry_events(entry, seen);
    let wrap = |report: ReportView| EventView::Finding(report);
    if found.len() == 0 {
        assert(findings_about(said.drop_first(), path).len() == 0);
        assert(findings_about(said, path) =~= Seq::<ReportView>::empty());
    } else if found.len() == 1 {
        assert(said[0] == wrap(found[0]));
        assert(findings_about(said.drop_first(), path).len() == 0);
        assert(found[0].path == entry.path);
        assert(findings_about(said, path) =~= if entry.path == path {
            found
        } else {
            Seq::empty()
        });
    } else {
        assert(found.len() == 2);
        let rest = said.drop_first();
        assert(said[0] == wrap(found[0]));
        assert(rest[0] == wrap(found[1]));
        assert(findings_about(rest.drop_first(), path).len() == 0);
        assert(found[0].path == entry.path && found[1].path == entry.path);
        assert(findings_about(rest, path) =~= if entry.path == path {
            seq![found[1]]
        } else {
            Seq::empty()
        });
        assert(findings_about(said, path) =~= if entry.path == path {
            found
        } else {
            Seq::empty()
        });
    }
}

/// What a whole run finds about a path is what is wrong with the last row
/// about that path, and nothing else: each path is reported on once,
/// however many rows are about it, and a path that no row is about is not
/// reported on at all.
pub proof fn lemma_findings_of_path(
    run: VerifierView,
    disk: spec_fn(Seq<char>) -> ObservationView,
    path: Seq<char>,
)
    requires
        run.cursor <= run.rows.len(),
    ensures
        forall|last: int|
            run.cursor <= last < run.rows.len() && row_path(#[trigger] run.rows[last]) == Some(path)
                && !is_superseded(run.rows, last) ==> findings_about(said_to_end(run, disk), path)
                == row_findings(run.rows[last], disk),
        !is_told_from(run.rows, run.cursor as int, path) ==> findings_about(
            said_to_end(run, disk),
            path,
        ) == Seq::<ReportView>::empty(),
    decreases run.rows.len() - run.cursor,
{
    if run.cursor < run.rows.len() {
        let here = run.cursor as int;
        let row = run.rows[here];
        let (now, next) = match polled(run).0 {
            StepView::Observe(at) => judged(run, disk(at)),
            StepView::Skipped(event) => (seq![event], polled(run).1),
            StepView::Done => (Seq::empty(), run),
        };
        assert(said_to_end(run, disk) == now + said_to_end(next, disk));
        lemma_findings_about_concat(now, said_to_end(next, disk), path);
        lemma_findings_of_path(next, disk, path);
        let here_findings = findings_about(now, path);
        // What this step says about the path.
        if is_superseded(run.rows, here) {
            assert(findings_about(now.drop_first(), path).len() == 0);
            assert(here_findings =~= Seq::<ReportView>::empty());
        } else {
            match row {
                RowView::Entry(entry) => {
                    lemma_findings_about_entry(entry, disk(entry.path), path);
                },
                RowView::Malformed { path: told } => {
                    assert(findings_about(now.drop_first(), path).len() == 0);
                    assert(here_findings =~= if told == path {
                        row_findings(row, disk)
                    } else {
                        Seq::empty()
                    });
                },
                RowView::Unreadable => {
                    assert(findings_about(now.drop_first(), path).len() == 0);
                    assert(here_findings =~= Seq::<ReportView>::empty());
                },
            }
        }
        let later = findings_about(said_to_end(next, disk), path);
        if row_path(row) == Some(path) && !is_superseded(run.rows, here) {
            // This is the last row about the path.
            assert(!is_told_from(run.rows, here + 1, path));
            assert(here_findings + later == here_findings);
            assert forall|last: int|
                run.cursor <= last < run.rows.len() && row_path(#[trigger] run.rows[last]) == Some(
                    path,
                ) && !is_superseded(run.rows, last) implies last == here by {
                if last > here {
                    assert(is_told_from(run.rows, here + 1, path));
                }
            }
        } else {
            assert(here_findings + later == later);
            if !is_told_from(run.rows, here, path) {
                if is_told_from(run.rows, here + 1, path) {
                    let k = choose|k: int|
                        here + 1 <= k < run.rows.len() && row_path(#[trigger] run.rows[k]) == Some(
                            path,
                        );
                    assert(here <= k < run.rows.len() && row_path(run.rows[k]) == Some(path));
                }
            }
        }
    }
}

/// A file that is gone is reported once in a whole run, as missing, and
/// nothing else is found about its path, however many rows are about it,
/// if the last of them is an entry.
pub proof fn lemma_deleted_file_reported_once(
    rows: Seq<RowView>,
    disk: spec_fn(Seq<char>) -> ObservationView,
    last: int,
)
    requires
        0 <= last < rows.len(),
        rows[last] is Entry,
        !is_superseded(rows, last),
        disk(rows[last]->Entry_0.path) == ObservationView::Missing,
    ensures
        findings_about(said_to_end(begun(rows), disk), rows[last]->Entry_0.path) == seq![
            plain_report(rows[last]->Entry_0.path, Reason::MissingOnDisk),
        ],
{
    lemma_findings_of_path(begun(rows), disk, rows[last]->Entry_0.path);
}

/// The rows that a run of the indexer writes, one after the other, and
/// the state in which it ends, when the caller reads `disk(path)` at each
/// path that it is asked to read. A run that meets a fault stops there.
pub open spec fn indexed_to_end(
    run: IndexerView,
    disk: spec_fn(Seq<char>) -> ReadOutcomeView,
) -> (Seq<char>, IndexerView)
    decreases run.candidates.len() - run.cursor,
{
    if run.cursor >= run.candidates.len() {
        (Seq::empty(), run)
    } else {
        match index_polled(run).0 {
            IndexStepView::Read(path) => {
                let fed = index_fed(index_polled(run).1, disk(path));
                let rest = indexed_to_end(fed.1, disk);
                (
                    match fed.0.row {
                        Some(row) => row + rest.0,
                        None => rest.0,
                    },
                    rest.1,
                )
            },
            IndexStepView::Skipped => indexed_to_end(index_polled(run).1, disk),
            _ => (Seq::empty(), run),
        }
    }
}

/// The entries of the files at `candidates` that are to be in the
/// manifest, in the order of the candidates: one for each file that no
/// pattern excludes and that can be read, up to the first fault if there
/// is one.
pub open spec fn entries_of(
    scope: Scope,
    candidates: Seq<Seq<char>>,
    disk: spec_fn(Seq<char>) -> ReadOutcomeView,
) -> Seq<EntryView>
    decreases candidates.len(),
{
    if candidates.len() == 0 {
        Seq::empty()
    } else {
        let rest = entries_of(scope, candidates.drop_first(), disk);
        match verdict(scope, candidates[0]) {
            Verdict::Fault(_) => Seq::empty(),
            Verdict::Skip => rest,
            Verdict::Read(relative) => match disk(candidates[0]) {
                ReadOutcomeView::Contents(data) => seq![entry_for(relative, data)] + rest,
                ReadOutcomeView::Failed(_) => rest,
            },
        }
    }
}

/// A run of the indexer writes the rows of exactly the files that are to
/// be in the manifest, in their order, and counts them.
pub proof fn lemma_indexed_rows(run: IndexerView, disk: spec_fn(Seq<char>) -> ReadOutcomeView)
    requires
        run.cursor <= run.candidates.len(),
        !run.awaiting,
    ensures
        indexed_to_end(run, disk).0 == rows_text(
            entries_of(run.scope, run.candidates.skip(run.cursor as int), disk),
        ),
        indexed_to_end(run, disk).1.count == run.count + entries_of(
            run.scope,
            run.candidates.skip(run.cursor as int),
            disk,
        ).len(),
    decreases run.candidates.len() - run.cursor,
{
    let left = run.candidates.skip(run.cursor as int);
    if run.cursor < run.candidates.len() {
        let candidate = run.candidates[run.cursor as int];
        assert(left[0] == candidate);
        assert(left.drop_first() == run.candidates.skip(run.cursor as int + 1));
        match verdict(run.scope, candidate) {
            Verdict::Fault(_) => {},
            Verdict::Skip => {
                lemma_indexed_rows(index_polled(run).1, disk);
            },
            Verdict::Read(relative) => {
                let fed = index_fed(index_polled(run).1, disk(candidate));
                lemma_indexed_rows(fed.1, disk);
                let rest = entries_of(run.scope, left.drop_first(), disk);
                match disk(candidate) {
                    ReadOutcomeView::Contents(data) => {
                        let first = entry_for(relative, data);
                        assert((seq![first] + rest)[0] == first);
                        assert((seq![first] + rest).drop_first() == rest);
                    },
                    ReadOutcomeView::Failed(_) => {},
                }
            },
        }
    } else {
        assert(left.len() == 0);
    }
}

/// Whether `entry` is the entry of the file at `candidate`: the file is
/// under the root, no pattern excludes it, it can be read, and the entry
/// is made of its relative path and its bytes.
pub open spec fn is_entry_of(
    scope: Scope,
    candidate: Seq<char>,
    disk: spec_fn(Seq<char>) -> ReadOutcomeView,
    entry: EntryView,
) -> bool {
    &&& verdict(scope, candidate) == Verdict::Read(relative_part(scope.root, candidate))
    &&& disk(candidate) matches ReadOutcomeView::Contents(data) && entry == entry_for(
        relative_part(scope.root, candidate),
        data,
    )
}

/// Every entry that is to be in the manifest is that of a candidate which
/// no pattern excludes, however many patterns there are.
pub proof fn lemma_entries_are_not_excluded(
    scope: Scope,
    candidates: Seq<Seq<char>>,
    disk: spec_fn(Seq<char>) -> ReadOutcomeView,
    place: int,
)
    requires
        0 <= place < entries_of(scope, candidates, disk).len(),
    ensures
        !excluded_by(entries_of(scope, candidates, disk)[place].path, scope.patterns),
        exists|i: int|
            0 <= i < candidates.len() && is_entry_of(
                scope,
                #[trigger] candidates[i],
                disk,
                entries_of(scope, candidates, disk)[place],
            ),
    decreases candidates.len(),
{
    let rest = entries_of(scope, candidates.drop_first(), disk);
    let tail = candidates.drop_first();
    match verdict(scope, candidates[0]) {
        Verdict::Fault(_) => {},
        Verdict::Skip => {
            lemma_entries_are_not_excluded(scope, tail, disk, place);
            let i = choose|i: int|
                0 <= i < tail.len() && is_entry_of(
                    scope,
                    #[trigger] tail[i],
                    disk,
                    rest[place],
                );
            assert(tail[i] == candidates[i + 1]);
        },
        Verdict::Read(relative) => {
            if disk(candidates[0]) is Contents && place == 0 {
                assert(is_entry_of(
                    scope,
                    candidates[0],
                    disk,
                    entries_of(scope, candidates, disk)[0],
                ));
            } else {
                let shifted = if disk(candidates[0]) is Contents {
                    place - 1
                } else {
                    place
                };
                lemma_entries_are_not_excluded(scope, tail, disk, shifted);
                let i = choose|i: int|
                    0 <= i < tail.len() && is_entry_of(
                        scope,
                        #[trigger] tail[i],
                        disk,
                        rest[shifted],
                    );
                assert(tail[i] == candidates[i + 1]);
            }
        },
    }
}

/// The place among `candidates` of the file whose entry stands at `place`
/// among the entries that are to be in the manifest.
pub open spec fn entry_source(
    scope: Scope,
    candidates: Seq<Seq<char>>,
    disk: spec_fn(Seq<char>) -> ReadOutcomeView,
    place: int,
) -> int
    decreases candidates.len(),
{
    if candidates.len() == 0 {
        0
    } else {
        let rest = 1 + entry_source(scope, candidates.drop_first(), disk, place);
        match verdict(scope, candidates[0]) {
            Verdict::Fault(_) => 0,
            Verdict::Skip => rest,
            Verdict::Read(_) => if disk(candidates[0]) is Contents {
                if place == 0 {
                    0
                } else {
                    1 + entry_source(scope, candidates.drop_first(), disk, place - 1)
                }
            } else {
                rest
            },
        }
    }
}

/// The entries that are to be in the manifest stand in the order of the
/// files they are made of.
pub proof fn lemma_entries_in_order(
    scope: Scope,
    candidates: Seq<Seq<char>>,
    disk: spec_fn(Seq<char>) -> ReadOutcomeView,
)
    ensures
        forall|place: int|
            0 <= place < entries_of(scope, candidates, disk).len() ==> {
                let source = #[trigger] entry_source(scope, candidates, disk, place);
                &&& 0 <= source < candidates.len()
                &&& is_entry_of(
                    scope,
                    candidates[source],
                    disk,
                    entries_of(scope, candidates, disk)[place],
                )
            },
        forall|p: int, q: int|
            0 <= p < q < entries_of(scope, candidates, disk).len() ==> #[trigger] entry_source(
                scope,
                candidates,
                disk,
                p,
            ) < #[trigger] entry_source(scope, candidates, disk, q),
    decreases candidates.len(),
{
    if candidates.len() > 0 {
        let tail = candidates.drop_first();
        let entries = entries_of(scope, candidates, disk);
        let rest = entries_of(scope, tail, disk);
        lemma_entries_in_order(scope, tail, disk);
        let shift: int = if verdict(scope, candidates[0]) is Read && disk(
            candidates[0],
        ) is Contents {
            1
        } else {
            0
        };
        assert forall|place: int| 0 <= place < entries.len() implies {
            let source = #[trigger] entry_source(scope, candidates, disk, place);
            &&& 0 <= source < candidates.len()
            &&& is_entry_of(scope, candidates[source], disk, entries[place])
        } by {
            if !(shift == 1 && place == 0) {
                let before = entry_source(scope, tail, disk, place - shift);
                assert(0 <= before < tail.len());
                assert(tail[before] == candidates[before + 1]);
                assert(entries[place] == rest[place - shift]);
            }
        }
        assert forall|p: int, q: int| 0 <= p < q < entries.len() implies #[trigger] entry_source(
            scope,
            candidates,
            disk,
            p,
        ) < #[trigger] entry_source(scope, candidates, disk, q) by {
            let after = entry_source(scope, tail, disk, q - shift);
            assert(0 <= after);
            if !(shift == 1 && p == 0) {
                let before = entry_source(scope, tail, disk, p - shift);
                assert(before < after);
            }
        }
    }
}

/// What the caller of the verifier sees at a path relative to `root`, on
/// a disk whose files the caller of the indexer would read as `disk` says.
pub open spec fn seen_at(
    root: Seq<char>,
    disk: spec_fn(Seq<char>) -> ReadOutcomeView,
) -> spec_fn(Seq<char>) -> ObservationView {
    |relative: Seq<char>|
        match disk(resolved(root, relative)) {
            ReadOutcomeView::Contents(data) => ObservationView::Contents(data),
            ReadOutcomeView::Failed(_) => ObservationView::Unreadable,
        }
}

/// Whether the file at `candidate` can be written to a manifest: its path
/// relative to the root is not empty and can stand as a field, and it does
/// not hold more bytes than can be counted.
pub open spec fn is_recordable(
    root: Seq<char>,
    candidate: Seq<char>,
    disk: spec_fn(Seq<char>) -> ReadOutcomeView,
) -> bool {
    &&& relative_part(root, candidate).len() > 0
    &&& is_plain(relative_part(root, candidate))
    &&& disk(candidate) matches ReadOutcomeView::Contents(data) ==> data.len() <= u64::MAX
}

/// Indexing a tree and then verifying it, with nothing changed in between,
/// finds nothing wrong.
///
/// The rows that the indexer writes after the header make a manifest that
/// reads back as exactly the entries of the files that were to be in it.
/// Run against the same disk, the verifier counts each of them as verified
/// and counts no error. The paths have to be such that the format can hold
/// them.
pub proof fn lemma_index_then_verify(
    scope: Scope,
    candidates: Seq<Seq<char>>,
    disk: spec_fn(Seq<char>) -> ReadOutcomeView,
)
    requires
        forall|i: int|
            0 <= i < candidates.len() ==> is_recordable(scope.root, #[trigger] candidates[i], disk),
        forall|i: int, j: int|
            0 <= i < j < candidates.len() ==> relative_part(scope.root, #[trigger] candidates[i])
                != relative_part(scope.root, #[trigger] candidates[j]),
    ensures
        ({
            let entries = entries_of(scope, candidates, disk);
            let written = indexed_to_end(started(scope, candidates), disk);
            let rows = entries.map_values(|entry: EntryView| RowView::Entry(entry));
            let end = verified_to_end(begun(rows), seen_at(scope.root, disk));
            &&& header_text().push('\n') + written.0 == index_text(entries)
            &&& parsed_index(index_text(entries)) == Some(rows)
            &&& end.verified == written.1.count
            &&& end.verified == entries.len()
            &&& end.errors == 0
        }),
{
    let entries = entries_of(scope, candidates, disk);
    let run = started(scope, candidates);
    let rows = entries.map_values(|entry: EntryView| RowView::Entry(entry));
    let seen = seen_at(scope.root, disk);
    assert(candidates.skip(0) == candidates);
    lemma_indexed_rows(run, disk);
    assert forall|place: int| 0 <= place < entries.len() implies is_writable(
        #[trigger] entries[place],
    ) && is_clean_row(rows, place, seen) by {
        lemma_entries_are_not_excluded(scope, candidates, disk, place);
        let i = choose|i: int|
            0 <= i < candidates.len() && is_entry_of(
                scope,
                #[trigger] candidates[i],
                disk,
                entries[place],
            );
        let candidate = candidates[i];
        let relative = relative_part(scope.root, candidate);
        let data = disk(candidate)->Contents_0;
        assert(is_recordable(scope.root, candidate, disk));
        lemma_entry_for_writable(relative, data);
        lemma_resolved_relative_part(scope.root, candidate);
        lemma_unchanged_file_verifies(relative, data);
        assert(seen(relative) == ObservationView::Contents(data));
    }
    lemma_index_round_trip(entries);
    lemma_entries_in_order(scope, candidates, disk);
    assert(has_distinct_paths(rows)) by {
        assert forall|p: int, q: int| 0 <= p < q < rows.len() implies row_path(#[trigger] rows[p])
            != row_path(#[trigger] rows[q]) by {
            let i = entry_source(scope, candidates, disk, p);
            let j = entry_source(scope, candidates, disk, q);
            assert(relative_part(scope.root, candidates[i]) != relative_part(
                scope.root,
                candidates[j],
            ));
        }
    }
    lemma_distinct_rows_count(rows, 0);
    lemma_clean_run(begun(rows), seen);
    lemma_run_ends(begun(rows), seen);
}

} // verus!