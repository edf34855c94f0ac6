use install_checker::index::parse::{parse_index, superseded_rows};
use install_checker::index::{header_row, write_index, IndexEntry, Row};

const ABC_DIGEST: &str = "ba7816bf8f01cfea414140de5dae2223b00361a396177a9cb410ff61f20015ad";
const EMPTY_DIGEST: &str = "e3b0c44298fc1c149afbf4c8996fb92427ae41e4649b934ca495991b7852b855";

fn entry(path: &str, size: u64, digest: &str, checksum: u32) -> IndexEntry {
    IndexEntry { path: path.to_string(), size, digest: digest.to_string(), checksum }
}

#[test]
fn header_row_is_fixed() {
    assert_eq!(header_row(), "path, size, digest, checksum\n");
}

#[test]
fn capture_takes_size_digest_and_checksum_from_the_bytes() {
    assert_eq!(
        IndexEntry::capture("docs/abc.txt", b"abc"),
        entry("docs/abc.txt", 3, ABC_DIGEST, 891568578)
    );
}

#[test]
fn capture_of_an_empty_file() {
    assert_eq!(IndexEntry::capture("b.txt", b""), entry("b.txt", 0, EMPTY_DIGEST, 0));
}

#[test]
fn to_row_writes_the_four_fields() {
    assert_eq!(
        entry("docs/abc.txt", 3, ABC_DIGEST, 891568578).to_row(),
        format!("docs/abc.txt, 3, {ABC_DIGEST}, 891568578\n")
    );
}

#[test]
fn write_index_puts_the_header_first() {
    assert_eq!(write_index(&[]), "path, size, digest, checksum\n");
    assert_eq!(
        write_index(&[entry("a.txt", 3, ABC_DIGEST, 891568578), entry("b.txt", 0, EMPTY_DIGEST, 0)]),
        format!(
            "path, size, digest, checksum\n\
             a.txt, 3, {ABC_DIGEST}, 891568578\n\
             b.txt, 0, {EMPTY_DIGEST}, 0\n"
        )
    );
}

#[test]
fn parse_reads_what_write_index_wrote() {
    let entries = vec![
        IndexEntry::capture("a.txt", b"0123456789"),
        IndexEntry::capture("deep/er/b.bin", &[0u8, 255, 10, 13]),
        IndexEntry::capture("c,d; e.txt", b""),
    ];
    let rows: Vec<Row> = entries.iter().cloned().map(Row::Entry).collect();
    assert_eq!(parse_index(&write_index(&entries)), Some(rows));
}

#[test]
fn parse_reads_what_was_written() {
    let first = IndexEntry::capture("a.txt", b"0123456789");
    let second = IndexEntry::capture("dir/b é.bin", b"");
    let text = format!("{}{}{}", header_row(), first.to_row(), second.to_row());
    assert_eq!(parse_index(&text), Some(vec![Row::Entry(first), Row::Entry(second)]));
}

#[test]
fn parse_of_a_header_alone_gives_no_rows() {
    assert_eq!(parse_index("path, size, digest, checksum\n"), Some(vec![]));
    assert_eq!(parse_index("path, size, digest, checksum"), Some(vec![]));
}

#[test]
fn parse_does_not_look_at_the_names_in_the_header() {
    let text = format!("path, size, sha2, crc32\na.txt, 3, {ABC_DIGEST}, 891568578\n");
    assert_eq!(
        parse_index(&text),
        Some(vec![Row::Entry(entry("a.txt", 3, ABC_DIGEST, 891568578))])
    );
}

#[test]
fn parse_refuses_an_empty_text() {
    assert_eq!(parse_index(""), None);
}

#[test]
fn parse_refuses_a_text_that_begins_with_a_row() {
    let text = format!("a.txt, 3, {ABC_DIGEST}, 891568578\nb.txt, 0, {EMPTY_DIGEST}, 0\n");
    assert_eq!(parse_index(&text), None);
}

#[test]
fn parse_refuses_a_header_without_four_fields() {
    assert_eq!(parse_index("\n"), None);
    assert_eq!(parse_index("garbage\n"), None);
    assert_eq!(parse_index("path, size, digest\n"), None);
    assert_eq!(parse_index("path, size, digest, checksum, more\n"), None);
    assert_eq!(parse_index("path,size,digest,checksum\n"), None);
}

#[test]
fn parse_drops_a_carriage_return_before_a_line_feed() {
    let text = format!("path, size, digest, checksum\r\na.txt, 3, {ABC_DIGEST}, 891568578\r\n");
    assert_eq!(
        parse_index(&text),
        Some(vec![Row::Entry(entry("a.txt", 3, ABC_DIGEST, 891568578))])
    );
}

#[test]
fn parse_reads_a_last_row_without_a_line_feed() {
    let text = format!("path, size, digest, checksum\na.txt, 3, {ABC_DIGEST}, 891568578");
    assert_eq!(
        parse_index(&text),
        Some(vec![Row::Entry(entry("a.txt", 3, ABC_DIGEST, 891568578))])
    );
}

#[test]
fn parse_keeps_a_carriage_return_that_ends_the_text() {
    let text = "path, size, digest, checksum\na.txt, 3, abc, 5\r";
    assert_eq!(parse_index(text), Some(vec![Row::Malformed { path: "a.txt".to_string() }]));
}

#[test]
fn parse_does_not_judge_the_digest() {
    let text = "path, size, digest, checksum\na.txt, 3, NOT-HEX, 5\n";
    assert_eq!(parse_index(text), Some(vec![Row::Entry(entry("a.txt", 3, "NOT-HEX", 5))]));
}

#[test]
fn a_bad_row_stands_among_the_good_ones() {
    let text = format!(
        "path, size, digest, checksum\n\
         a.txt, 3, {ABC_DIGEST}, 891568578\n\
         b.txt, many, {ABC_DIGEST}, 1\n\
         \n\
         no separator here\n\
         c.txt, 1\n\
         d.txt, 1, {ABC_DIGEST}, 4294967296\n\
         e.txt, 1, {ABC_DIGEST}, 2, extra\n\
         , 1, {ABC_DIGEST}, 2\n\
         f.txt, 0, {EMPTY_DIGEST}, 0\n"
    );
    assert_eq!(
        parse_index(&text),
        Some(vec![
            Row::Entry(entry("a.txt", 3, ABC_DIGEST, 891568578)),
            Row::Malformed { path: "b.txt".to_string() },
            Row::Unreadable,
            Row::Unreadable,
            Row::Malformed { path: "c.txt".to_string() },
            Row::Malformed { path: "d.txt".to_string() },
            Row::Malformed { path: "e.txt".to_string() },
            Row::Unreadable,
            Row::Entry(entry("f.txt", 0, EMPTY_DIGEST, 0)),
        ])
    );
}

#[test]
fn fields_are_split_on_comma_and_space_only() {
    let text = "path, size, digest, checksum\na,b.txt, 1, d,d, 2\n";
    assert_eq!(parse_index(text), Some(vec![Row::Entry(entry("a,b.txt", 1, "d,d", 2))]));
    let text = "path, size, digest, checksum\na.txt,  1, d, 2\n";
    assert_eq!(parse_index(text), Some(vec![Row::Malformed { path: "a.txt".to_string() }]));
}

#[test]
fn a_path_with_a_separator_cannot_be_read_back() {
    let written = IndexEntry::capture("a, b.txt", b"abc");
    let text = format!("{}{}", header_row(), written.to_row());
    assert_eq!(parse_index(&text), Some(vec![Row::Malformed { path: "a".to_string() }]));
}

#[test]
fn sizes_up_to_sixty_four_bits_are_read() {
    let text = "path, size, digest, checksum\nbig.bin, 18446744073709551615, d, 4294967295\n";
    assert_eq!(
        parse_index(text),
        Some(vec![Row::Entry(entry("big.bin", u64::MAX, "d", u32::MAX))])
    );
    let text = "path, size, digest, checksum\nbig.bin, 18446744073709551616, d, 1\n";
    assert_eq!(parse_index(text), Some(vec![Row::Malformed { path: "big.bin".to_string() }]));
}

#[test]
fn a_row_tells_its_path_unless_it_is_unreadable() {
    assert_eq!(Row::Entry(entry("a.txt", 1, "x", 1)).path(), Some(&"a.txt".to_string()));
    assert_eq!(Row::Malformed { path: "b.txt".to_string() }.path(), Some(&"b.txt".to_string()));
    assert_eq!(Row::Unreadable.path(), None);
}

#[test]
fn a_row_is_superseded_by_a_later_row_about_its_path() {
    let rows = vec![
        Row::Entry(entry("a.txt", 1, "x", 1)),
        Row::Unreadable,
        Row::Malformed { path: "b.txt".to_string() },
        Row::Entry(entry("a.txt", 2, "y", 2)),
        Row::Unreadable,
        Row::Entry(entry("b.txt", 3, "z", 3)),
        Row::Entry(entry("c.txt", 4, "w", 4)),
        Row::Entry(entry("a.txt", 5, "v", 5)),
    ];
    assert_eq!(
        superseded_rows(&rows),
        vec![true, false, true, true, false, false, false, false]
    );
    assert_eq!(superseded_rows(&[]), Vec::<bool>::new());
}

/// A small generator of numbers that look random, the same on every run.
fn numbers(seed: u64) -> impl FnMut(u64) -> u64 {
    let mut state = seed;
    move |bound| {
        state ^= state << 13;
        state ^= state >> 7;
        state ^= state << 17;
        state % bound
    }
}

#[test]
fn rows_of_many_entries_are_read_back() {
    let alphabet: Vec<char> = "ab/._- ,é0+".chars().collect();
    let mut next = numbers(0x9E3779B97F4A7C15);
    let mut written = Vec::new();
    let mut text = header_row();
    for _ in 0..500 {
        let mut path = String::from("p");
        for _ in 0..next(12) {
            let c = alphabet[next(alphabet.len() as u64) as usize];
            if c == ' ' && path.ends_with(',') {
                continue;
            }
            path.push(c);
        }
        let size = next(u64::MAX) >> next(64);
        let checksum = (next(u64::MAX) >> 32) as u32;
        let digest: String = (0..64).map(|_| format!("{:x}", next(16))).collect();
        let row = entry(&path, size, &digest, checksum);
        text.push_str(&row.to_row());
        written.push(Row::Entry(row));
    }
    assert_eq!(parse_index(&text), Some(written));
}

#[test]
fn any_text_is_read_to_its_end() {
    let alphabet: Vec<char> = "a, ,\n\r05+x".chars().collect();
    let mut next = numbers(0xD1B54A32D192ED03);
    let mut read = 0;
    for _ in 0..2000 {
        let mut text = if next(2) == 0 { header_row() } else { String::new() };
        for _ in 0..next(60) {
            text.push(alphabet[next(alphabet.len() as u64) as usize]);
        }
        if let Some(rows) = parse_index(&text) {
            assert_eq!(rows.len() + 1, text.lines().count());
            assert_eq!(superseded_rows(&rows).len(), rows.len());
            read += 1;
        }
    }
    assert!(read > 500);
}
