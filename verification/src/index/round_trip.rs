//! What is written to a manifest is read back from it.

use vstd::prelude::*;

use crate::digest::{digest_text, sha256};
use crate::index::parse::{
    fields_of, first_newline, first_separator, is_header, lines_of, parsed_index, parsed_row,
    without_return,
};
use crate::index::{
    entry_for, header_text, index_text, row_text, rows_text, separator, EntryView, RowView,
};
use crate::text::{
    decimal_text, is_digit, is_hex_digit, lemma_decimal_round_trip, lemma_decimal_text_digits,
    lemma_hex_text_shape, number_value,
};

verus! {

/// Whether `s` can stand as a field: it holds neither a separator nor a
/// line feed.
pub open spec fn is_plain(s: Seq<char>) -> bool {
    &&& first_separator(s) == s.len()
    &&& forall|i: int| 0 <= i < s.len() ==> #[trigger] s[i] != '\n'
}

/// Whether `entry` can be written to a manifest and read back: it has a
/// path, and neither its path nor its digest holds a separator or a line
/// feed.
pub open spec fn is_writable(entry: EntryView) -> bool {
    &&& entry.path.len() > 0
    &&& is_plain(entry.path)
    &&& is_plain(entry.digest)
}

/// A text without a comma and without a line feed can stand as a field.
pub proof fn lemma_plain_without_comma(s: Seq<char>)
    requires
        forall|i: int| 0 <= i < s.len() ==> #[trigger] s[i] != ',' && s[i] != '\n',
    ensures
        is_plain(s),
    decreases s.len(),
{
    if s.len() >= 2 {
        assert(s[0] != ',');
        assert forall|i: int| 0 <= i < s.drop_first().len() implies #[trigger] s.drop_first()[i]
            != ',' && s.drop_first()[i] != '\n' by {
            assert(s.drop_first()[i] == s[i + 1]);
        }
        lemma_plain_without_comma(s.drop_first());
    }
}

/// A field followed by a separator is the first field of the row.
pub proof fn lemma_fields_of_joined(field: Seq<char>, rest: Seq<char>)
    requires
        first_separator(field) == field.len(),
    ensures
        fields_of(field + separator() + rest) == seq![field] + fields_of(rest),
{
    let row = field + separator() + rest;
    lemma_first_separator_joined(field, rest);
    assert(row.take(field.len() as int) == field);
    assert(row.skip(field.len() as int + 2) == rest);
}

proof fn lemma_first_separator_joined(field: Seq<char>, rest: Seq<char>)
    requires
        first_separator(field) == field.len(),
    ensures
        first_separator(field + separator() + rest) == field.len(),
    decreases field.len(),
{
    let row = field + separator() + rest;
    if field.len() == 0 {
        assert(row[0] == ',' && row[1] == ' ');
    } else {
        assert(row[0] == field[0]);
        if field.len() >= 2 {
            assert(row[1] == field[1]);
        } else {
            assert(row[1] == ',');
            assert(field.drop_first().len() == 0);
        }
        assert(row.drop_first() == field.drop_first() + separator() + rest);
        lemma_first_separator_joined(field.drop_first(), rest);
    }
}

/// Reading the row of an entry gives the entry back.
pub proof fn lemma_row_round_trip(entry: EntryView)
    requires
        is_writable(entry),
    ensures
        parsed_row(row_text(entry)) == RowView::Entry(entry),
{
    let size = decimal_text(entry.size as nat);
    let checksum = decimal_text(entry.checksum as nat);
    lemma_decimal_text_digits(entry.size as nat);
    lemma_decimal_text_digits(entry.checksum as nat);
    lemma_decimal_round_trip(entry.size as nat);
    lemma_decimal_round_trip(entry.checksum as nat);
    lemma_plain_without_comma(size);
    lemma_plain_without_comma(checksum);
    let rest3 = checksum;
    let rest2 = entry.digest + separator() + rest3;
    let rest1 = size + separator() + rest2;
    assert(row_text(entry) == entry.path + separator() + rest1);
    lemma_fields_of_joined(entry.path, rest1);
    lemma_fields_of_joined(size, rest2);
    lemma_fields_of_joined(entry.digest, rest3);
    assert(fields_of(rest3) == seq![rest3]);
    assert(fields_of(row_text(entry)) == seq![entry.path, size, entry.digest, checksum]);
}

/// A row holds a line feed only where one of its fields does.
pub proof fn lemma_row_text_one_line(entry: EntryView)
    requires
        is_writable(entry),
    ensures
        first_newline(row_text(entry)) == row_text(entry).len(),
        without_return(row_text(entry)) == row_text(entry),
{
    let row = row_text(entry);
    let size = decimal_text(entry.size as nat);
    let checksum = decimal_text(entry.checksum as nat);
    lemma_decimal_text_digits(entry.size as nat);
    lemma_decimal_text_digits(entry.checksum as nat);
    assert forall|i: int| 0 <= i < row.len() implies #[trigger] row[i] != '\n' by {
        let a = entry.path.len();
        let b = a + 2;
        let c = b + size.len();
        let d = c + 2;
        let e = d + entry.digest.len();
        let f = e + 2;
        if i < a {
            assert(row[i] == entry.path[i]);
        } else if i < b {
            assert(row[i] == separator()[i - a]);
        } else if i < c {
            assert(row[i] == size[i - b]);
        } else if i < d {
            assert(row[i] == separator()[i - c]);
        } else if i < e {
            assert(row[i] == entry.digest[i - d]);
        } else if i < f {
            assert(row[i] == separator()[i - e]);
        } else {
            assert(row[i] == checksum[i - f]);
        }
    }
    lemma_first_newline_none(row);
    assert(row.last() == checksum.last());
    assert(is_digit(checksum.last()));
}

proof fn lemma_first_newline_none(s: Seq<char>)
    requires
        forall|i: int| 0 <= i < s.len() ==> #[trigger] s[i] != '\n',
    ensures
        first_newline(s) == s.len(),
    decreases s.len(),
{
    if s.len() > 0 {
        assert(s[0] != '\n');
        assert forall|i: int| 0 <= i < s.drop_first().len() implies #[trigger] s.drop_first()[i]
            != '\n' by {
            assert(s.drop_first()[i] == s[i + 1]);
        }
        lemma_first_newline_none(s.drop_first());
    }
}

/// A line followed by a line feed is the first line of the text.
pub proof fn lemma_lines_of_joined(line: Seq<char>, rest: Seq<char>)
    requires
        first_newline(line) == line.len(),
        without_return(line) == line,
    ensures
        lines_of(line.push('\n') + rest) == seq![line] + lines_of(rest),
{
    let text = line.push('\n') + rest;
    lemma_first_newline_joined(line, rest);
    assert(text.take(line.len() as int) == line);
    assert(text.skip(line.len() as int + 1) == rest);
}

proof fn lemma_first_newline_joined(line: Seq<char>, rest: Seq<char>)
    requires
        first_newline(line) == line.len(),
    ensures
        first_newline(line.push('\n') + rest) == line.len(),
    decreases line.len(),
{
    let text = line.push('\n') + rest;
    if line.len() == 0 {
        assert(text[0] == '\n');
    } else {
        assert(text[0] == line[0]);
        assert(text.drop_first() == line.drop_first().push('\n') + rest);
        lemma_first_newline_joined(line.drop_first(), rest);
    }
}

/// The header row is a header.
pub proof fn lemma_header_is_header()
    ensures
        is_header(header_text()),
        first_newline(header_text()) == header_text().len(),
        without_return(header_text()) == header_text(),
{
    reveal_strlit("path, size, digest, checksum");
    reveal_strlit("path");
    reveal_strlit("size");
    reveal_strlit("digest");
    reveal_strlit("checksum");
    let header = header_text();
    let rest3 = "checksum"@;
    let rest2 = "digest"@ + separator() + rest3;
    let rest1 = "size"@ + separator() + rest2;
    assert(header =~= "path"@ + separator() + rest1);
    lemma_plain_without_comma("path"@);
    lemma_plain_without_comma("size"@);
    lemma_plain_without_comma("digest"@);
    lemma_plain_without_comma("checksum"@);
    lemma_fields_of_joined("path"@, rest1);
    lemma_fields_of_joined("size"@, rest2);
    lemma_fields_of_joined("digest"@, rest3);
    assert(fields_of(rest3) == seq![rest3]);
    assert(fields_of(header) == seq!["path"@, "size"@, "digest"@, "checksum"@]);
    assert(!is_digit("size"@[0]));
    assert(number_value("size"@) is None);
    lemma_first_newline_none(header);
}

/// The lines of the rows of writable entries are their rows.
pub proof fn lemma_rows_text_lines(entries: Seq<EntryView>)
    requires
        forall|i: int| 0 <= i < entries.len() ==> is_writable(#[trigger] entries[i]),
    ensures
        lines_of(rows_text(entries)) == entries.map_values(|entry: EntryView| row_text(entry)),
    decreases entries.len(),
{
    let render = |entry: EntryView| row_text(entry);
    if entries.len() == 0 {
        assert(lines_of(rows_text(entries)) =~= entries.map_values(render));
    } else {
        let first = entries[0];
        let others = entries.drop_first();
        assert forall|i: int| 0 <= i < others.len() implies is_writable(#[trigger] others[i]) by {
            assert(others[i] == entries[i + 1]);
        }
        lemma_rows_text_lines(others);
        lemma_row_text_one_line(first);
        lemma_lines_of_joined(row_text(first), rows_text(others));
        assert(seq![row_text(first)] + others.map_values(render) =~= entries.map_values(render));
    }
}

/// Reading a manifest that was written from writable entries gives those
/// entries back, in their order, and nothing else.
pub proof fn lemma_index_round_trip(entries: Seq<EntryView>)
    requires
        forall|i: int| 0 <= i < entries.len() ==> is_writable(#[trigger] entries[i]),
    ensures
        parsed_index(index_text(entries)) == Some(
            entries.map_values(|entry: EntryView| RowView::Entry(entry)),
        ),
{
    let render = |entry: EntryView| row_text(entry);
    let parse = |line: Seq<char>| parsed_row(line);
    let wrap = |entry: EntryView| RowView::Entry(entry);
    lemma_header_is_header();
    lemma_rows_text_lines(entries);
    lemma_lines_of_joined(header_text(), rows_text(entries));
    let lines = lines_of(index_text(entries));
    assert(lines == seq![header_text()] + entries.map_values(render));
    assert(lines.skip(1) =~= entries.map_values(render));
    assert forall|i: int| 0 <= i < entries.len() implies #[trigger] entries.map_values(
        render,
    ).map_values(parse)[i] == entries.map_values(wrap)[i] by {
        lemma_row_round_trip(entries[i]);
    }
    assert(lines.skip(1).map_values(parse) =~= entries.map_values(wrap));
}

/// An empty text is no manifest.
pub proof fn lemma_empty_index_is_corrupt()
    ensures
        parsed_index(Seq::<char>::empty()) is None,
{
}

/// Rows without a header row before them are no manifest.
pub proof fn lemma_headless_index_is_corrupt(entries: Seq<EntryView>)
    requires
        forall|i: int| 0 <= i < entries.len() ==> is_writable(#[trigger] entries[i]),
    ensures
        parsed_index(rows_text(entries)) is None,
{
    if entries.len() > 0 {
        lemma_rows_text_lines(entries);
        lemma_row_round_trip(entries[0]);
        assert(lines_of(rows_text(entries))[0] == row_text(entries[0]));
    }
}

/// The entry of a file can be written and read back if its path can.
pub proof fn lemma_entry_for_writable(path: Seq<char>, data: Seq<u8>)
    requires
        path.len() > 0,
        is_plain(path),
    ensures
        is_writable(entry_for(path, data)),
{
    let digest = digest_text(data);
    lemma_hex_text_shape(sha256(data));
    assert forall|i: int| 0 <= i < digest.len() implies #[trigger] digest[i] != ',' && digest[i]
        != '\n' by {
        assert(is_hex_digit(digest[i]));
    }
    lemma_plain_without_comma(digest);
}

} // verus!
