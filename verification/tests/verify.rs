use install_checker::index::{header_row, IndexEntry};
use install_checker::output::{Event, OutputKind};
use install_checker::report::{Reason, Report};
use install_checker::verify::{
    check_entry, check_hashes, check_size, IndexSource, Observation, Step, Verifier, VerifyError,
};

const TEN: &[u8] = b"0123456789";
const TEN_DIGEST: &str = "84d89877f0d4041efb6bf91a16f0248f2fd573e6af05c19f96bedb9f882f7882";
const TEN_CHANGED: &[u8] = b"0123456780";
const TEN_CHANGED_DIGEST: &str =
    "387861473bdec7ee98095a4a03910b86a8a442c2f6f3f251fee1c865a74b44aa";

fn plain(path: &str, reason: Reason) -> Report {
    Report { path: path.to_string(), reason, observed: None, expected: None }
}

fn compared(path: &str, reason: Reason, observed: &str, expected: &str) -> Report {
    Report {
        path: path.to_string(),
        reason,
        observed: Some(observed.to_string()),
        expected: Some(expected.to_string()),
    }
}

fn info(text: &str) -> Event {
    Event::Message { kind: OutputKind::Info, text: text.to_string() }
}

fn open(text: &str) -> Verifier {
    match Verifier::open(IndexSource::Text(text.to_string())) {
        Ok(verifier) => verifier,
        Err(error) => panic!("the manifest was refused: {error:?}"),
    }
}

#[test]
fn an_unchanged_file_gives_no_report() {
    let entry = IndexEntry::capture("a.txt", TEN);
    assert_eq!(check_entry(&entry, &Observation::Contents(TEN.to_vec())), vec![]);
}

#[test]
fn an_unchanged_empty_file_gives_no_report() {
    let entry = IndexEntry::capture("b.txt", b"");
    assert_eq!(check_entry(&entry, &Observation::Contents(Vec::new())), vec![]);
}

#[test]
fn a_missing_file_gives_one_report() {
    let entry = IndexEntry::capture("a.txt", TEN);
    assert_eq!(
        check_entry(&entry, &Observation::Missing),
        vec![plain("a.txt", Reason::MissingOnDisk)]
    );
}

#[test]
fn an_unreadable_file_gives_one_report() {
    let entry = IndexEntry::capture("a.txt", TEN);
    assert_eq!(
        check_entry(&entry, &Observation::Unreadable),
        vec![plain("a.txt", Reason::ReadFailed)]
    );
}

#[test]
fn a_truncated_file_gives_a_size_report_only() {
    let entry = IndexEntry::capture("a.txt", TEN);
    assert_eq!(
        check_entry(&entry, &Observation::Contents(b"01234".to_vec())),
        vec![compared("a.txt", Reason::SizeMismatch, "5", "10")]
    );
}

#[test]
fn a_grown_file_gives_a_size_report_only() {
    let entry = IndexEntry::capture("b.txt", b"");
    assert_eq!(
        check_entry(&entry, &Observation::Contents(b"x".to_vec())),
        vec![compared("b.txt", Reason::SizeMismatch, "1", "0")]
    );
}

#[test]
fn a_changed_byte_gives_a_digest_and_a_checksum_report() {
    let entry = IndexEntry::capture("a.txt", TEN);
    assert_eq!(
        check_entry(&entry, &Observation::Contents(TEN_CHANGED.to_vec())),
        vec![
            compared("a.txt", Reason::DigestMismatch, TEN_CHANGED_DIGEST, TEN_DIGEST),
            compared("a.txt", Reason::ChecksumMismatch, "3747118946", "2793719750"),
        ]
    );
}

#[test]
fn digest_and_checksum_are_compared_apart() {
    let mut entry = IndexEntry::capture("a.txt", TEN);
    entry.checksum = 1;
    assert_eq!(
        check_entry(&entry, &Observation::Contents(TEN.to_vec())),
        vec![compared("a.txt", Reason::ChecksumMismatch, "2793719750", "1")]
    );
    let mut entry = IndexEntry::capture("a.txt", TEN);
    entry.digest = TEN_DIGEST.to_uppercase();
    assert_eq!(
        check_entry(&entry, &Observation::Contents(TEN.to_vec())),
        vec![compared("a.txt", Reason::DigestMismatch, TEN_DIGEST, &TEN_DIGEST.to_uppercase())]
    );
}

#[test]
fn sizes_are_compared_as_numbers() {
    let entry = IndexEntry { path: "a".to_string(), size: 10, digest: "d".to_string(), checksum: 1 };
    assert_eq!(check_size(&entry, 10), None);
    assert_eq!(check_size(&entry, 9), Some(compared("a", Reason::SizeMismatch, "9", "10")));
    assert_eq!(
        check_size(&entry, u64::MAX),
        Some(compared("a", Reason::SizeMismatch, "18446744073709551615", "10"))
    );
}

#[test]
fn hashes_are_compared_each_for_itself() {
    let entry = IndexEntry { path: "a".to_string(), size: 1, digest: "ab".to_string(), checksum: 5 };
    assert_eq!(check_hashes(&entry, "ab".to_string(), 5), vec![]);
    assert_eq!(
        check_hashes(&entry, "cd".to_string(), 5),
        vec![compared("a", Reason::DigestMismatch, "cd", "ab")]
    );
    assert_eq!(
        check_hashes(&entry, "ab".to_string(), 6),
        vec![compared("a", Reason::ChecksumMismatch, "6", "5")]
    );
    assert_eq!(
        check_hashes(&entry, "AB".to_string(), 0),
        vec![
            compared("a", Reason::DigestMismatch, "AB", "ab"),
            compared("a", Reason::ChecksumMismatch, "0", "5"),
        ]
    );
}

#[test]
fn reasons_have_their_sentences() {
    assert_eq!(Reason::MissingOnDisk.message(), "Entry doesn't exist on disk.");
    assert_eq!(Reason::ReadFailed.message(), "Failed to read file.");
    assert_eq!(Reason::SizeMismatch.message(), "Sizes don't match.");
    assert_eq!(Reason::DigestMismatch.message(), "Content sha256 doesn't match.");
    assert_eq!(Reason::ChecksumMismatch.message(), "Content crc32 doesn't match.");
    assert_eq!(Reason::RowParseError.message(), "Index row is malformed.");
}

#[test]
fn open_fails_without_a_manifest() {
    assert_eq!(Verifier::open(IndexSource::Missing).err(), Some(VerifyError::IndexMissing));
}

#[test]
fn open_fails_on_a_manifest_that_cannot_be_read() {
    assert_eq!(Verifier::open(IndexSource::Unreadable).err(), Some(VerifyError::IndexUnreadable));
}

#[test]
fn open_fails_on_a_manifest_without_header() {
    let row = IndexEntry::capture("a.txt", TEN).to_row();
    for text in ["", "\n", "not a header\n", row.as_str()] {
        assert_eq!(
            Verifier::open(IndexSource::Text(text.to_string())).err(),
            Some(VerifyError::IndexCorrupt)
        );
    }
}

#[test]
fn a_manifest_of_a_header_alone_is_done_at_once() {
    let mut verifier = open(&header_row());
    assert!(verifier.is_done());
    assert_eq!(verifier.poll(), Step::Done);
    assert_eq!(verifier.verified(), 0);
    assert_eq!(verifier.errors(), 0);
    assert_eq!(verifier.exit_code(), 0);
}

#[test]
fn a_run_goes_row_by_row() {
    let text = format!(
        "{}{}{}",
        header_row(),
        IndexEntry::capture("a.txt", TEN).to_row(),
        IndexEntry::capture("dir/b.txt", b"").to_row()
    );
    let mut verifier = open(&text);
    assert!(!verifier.is_done());
    assert_eq!(verifier.poll(), Step::Observe("a.txt".to_string()));
    assert_eq!(verifier.poll(), Step::Observe("a.txt".to_string()));
    assert_eq!(
        verifier.judge(&Observation::Contents(TEN.to_vec())),
        vec![info("Processed entry `a.txt`")]
    );
    assert_eq!(verifier.poll(), Step::Observe("dir/b.txt".to_string()));
    assert_eq!(
        verifier.judge(&Observation::Missing),
        vec![Event::Finding(plain("dir/b.txt", Reason::MissingOnDisk))]
    );
    assert!(verifier.is_done());
    assert_eq!(verifier.poll(), Step::Done);
    assert_eq!(verifier.verified(), 1);
    assert_eq!(verifier.errors(), 1);
    assert_eq!(verifier.exit_code(), 1);
    assert_eq!(verifier.finish(3), info("Verified 1 files in 3s with 1 errors!"));
}

#[test]
fn each_finding_counts_as_an_error() {
    let text = format!("{}{}", header_row(), IndexEntry::capture("a.txt", TEN).to_row());
    let mut verifier = open(&text);
    assert_eq!(verifier.poll(), Step::Observe("a.txt".to_string()));
    assert_eq!(
        verifier.judge(&Observation::Contents(TEN_CHANGED.to_vec())),
        vec![
            Event::Finding(compared(
                "a.txt",
                Reason::DigestMismatch,
                TEN_CHANGED_DIGEST,
                TEN_DIGEST
            )),
            Event::Finding(compared(
                "a.txt",
                Reason::ChecksumMismatch,
                "3747118946",
                "2793719750"
            )),
        ]
    );
    assert_eq!(verifier.verified(), 0);
    assert_eq!(verifier.errors(), 2);
    assert_eq!(verifier.exit_code(), 1);
}

#[test]
fn judging_where_nothing_waits_changes_nothing() {
    let mut verifier = open(&header_row());
    assert_eq!(verifier.judge(&Observation::Missing), vec![]);
    assert_eq!(verifier.errors(), 0);
    let text = format!("{}bad, row\n", header_row());
    let mut verifier = open(&text);
    assert_eq!(verifier.judge(&Observation::Missing), vec![]);
    assert_eq!(verifier.errors(), 0);
    assert!(!verifier.is_done());
}

#[test]
fn a_bad_row_does_not_stop_the_run() {
    let text = format!(
        "{}b.txt, many, x, 1\n\n{}",
        header_row(),
        IndexEntry::capture("a.txt", TEN).to_row()
    );
    let mut verifier = open(&text);
    assert_eq!(
        verifier.poll(),
        Step::Skipped(Event::Finding(plain("b.txt", Reason::RowParseError)))
    );
    assert_eq!(
        verifier.poll(),
        Step::Skipped(Event::Message {
            kind: OutputKind::Error,
            text: "Row 2 of the index could not be parsed.".to_string(),
        })
    );
    assert_eq!(verifier.poll(), Step::Observe("a.txt".to_string()));
    assert_eq!(
        verifier.judge(&Observation::Contents(TEN.to_vec())),
        vec![info("Processed entry `a.txt`")]
    );
    assert_eq!(verifier.poll(), Step::Done);
    assert_eq!(verifier.verified(), 1);
    assert_eq!(verifier.errors(), 2);
    assert_eq!(verifier.exit_code(), 1);
}

#[test]
fn of_two_rows_about_one_path_the_last_counts() {
    let mut stale = IndexEntry::capture("a.txt", b"old");
    stale.path = "a.txt".to_string();
    let text = format!(
        "{}{}{}{}",
        header_row(),
        stale.to_row(),
        IndexEntry::capture("b.txt", b"").to_row(),
        IndexEntry::capture("a.txt", TEN).to_row()
    );
    let mut verifier = open(&text);
    assert_eq!(
        verifier.poll(),
        Step::Skipped(Event::Message {
            kind: OutputKind::Warn,
            text: "Entry `a.txt` is replaced by a later row of the index.".to_string(),
        })
    );
    assert_eq!(verifier.poll(), Step::Observe("b.txt".to_string()));
    assert_eq!(
        verifier.judge(&Observation::Contents(Vec::new())),
        vec![info("Processed entry `b.txt`")]
    );
    assert_eq!(verifier.poll(), Step::Observe("a.txt".to_string()));
    assert_eq!(
        verifier.judge(&Observation::Contents(TEN.to_vec())),
        vec![info("Processed entry `a.txt`")]
    );
    assert_eq!(verifier.poll(), Step::Done);
    assert_eq!(verifier.verified(), 2);
    assert_eq!(verifier.errors(), 0);
}

#[test]
fn a_deleted_file_is_reported_once_however_often_it_is_listed() {
    let row = IndexEntry::capture("a.txt", TEN).to_row();
    let text = format!("{}{row}{row}{row}", header_row());
    let mut verifier = open(&text);
    let mut findings = Vec::new();
    loop {
        match verifier.poll() {
            Step::Observe(_) => findings.extend(verifier.judge(&Observation::Missing)),
            Step::Skipped(_) => {}
            Step::Done => break,
        }
    }
    assert_eq!(findings, vec![Event::Finding(plain("a.txt", Reason::MissingOnDisk))]);
    assert_eq!(verifier.verified(), 0);
    assert_eq!(verifier.errors(), 1);
}

#[test]
fn a_malformed_row_supersedes_too() {
    let text = format!(
        "{}{}a.txt, what, x, 1
",
        header_row(),
        IndexEntry::capture("a.txt", TEN).to_row()
    );
    let mut verifier = open(&text);
    assert_eq!(
        verifier.poll(),
        Step::Skipped(Event::Message {
            kind: OutputKind::Warn,
            text: "Entry `a.txt` is replaced by a later row of the index.".to_string(),
        })
    );
    assert_eq!(verifier.judge(&Observation::Missing), vec![]);
    assert_eq!(
        verifier.poll(),
        Step::Skipped(Event::Finding(plain("a.txt", Reason::RowParseError)))
    );
    assert_eq!(verifier.poll(), Step::Done);
    assert_eq!(verifier.errors(), 1);
}

#[test]
fn errors_of_opening_have_their_messages() {
    let error = |text: &str| Event::Message { kind: OutputKind::Error, text: text.to_string() };
    assert_eq!(
        VerifyError::IndexMissing.event("/r/index.csv"),
        error("Index file `/r/index.csv` does not exist.")
    );
    assert_eq!(
        VerifyError::IndexUnreadable.event("/r/index.csv"),
        error("Failed to open index file `/r/index.csv` for reading.")
    );
    assert_eq!(
        VerifyError::IndexCorrupt.event("/r/index.csv"),
        error("Index file `/r/index.csv` does not begin with a header row.")
    );
}

#[test]
fn a_verification_is_announced() {
    assert_eq!(Verifier::announce("/r/index.csv"), info("Using index file at `/r/index.csv`"));
}

#[test]
fn the_exit_status_tells_errors_from_none() {
    assert_eq!(install_checker::status::exit_status(0), 0);
    assert_eq!(install_checker::status::exit_status(1), 1);
    assert_eq!(install_checker::status::exit_status(u64::MAX), 1);
    assert_eq!(install_checker::status::EXIT_CLEAN, 0);
    assert_ne!(install_checker::status::EXIT_FAILED, 0);
}

#[test]
fn the_summary_counts_in_full() {
    let verifier = open(&header_row());
    assert_eq!(
        verifier.finish(u64::MAX),
        info("Verified 0 files in 18446744073709551615s with 0 errors!")
    );
}
