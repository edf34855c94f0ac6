//! Reading a manifest.
//!
//! A manifest is read line by line. The first line has to be a header row;
//! every other line is an entry, or a malformed row whose path can still
//! be told, or unreadable. A carriage return before a line feed is dropped.
//! Of the rows about one path, the last one counts.

use vstd::hash_set::StringHashSet;
use vstd::prelude::*;

use crate::index::{row_path, EntryView, IndexEntry, Row, RowView};
use crate::text::{chars_of, parsed_u32, parsed_u64, read_u32, read_u64, string_of};

verus! {

/// Where the first separator of `s` begins, or the length of `s` if it has
/// none.
pub open spec fn first_separator(s: Seq<char>) -> int
    decreases s.len(),
{
    if s.len() < 2 {
        s.len() as int
    } else if s[0] == ',' && s[1] == ' ' {
        0
    } else {
        1 + first_separator(s.drop_first())
    }
}

/// The fields of a row: what stands before, between and after its
/// separators, from the left.
pub open spec fn fields_of(s: Seq<char>) -> Seq<Seq<char>>
    decreases s.len(),
    via fields_of_decreases
{
    let n = first_separator(s);
    if n >= s.len() {
        seq![s]
    } else {
        seq![s.take(n)] + fields_of(s.skip(n + 2))
    }
}

#[via_fn]
proof fn fields_of_decreases(s: Seq<char>) {
    lemma_first_separator_bounds(s);
}

/// The first separator begins inside the text, with room for both of its
/// characters, or there is none.
pub proof fn lemma_first_separator_bounds(s: Seq<char>)
    ensures
        0 <= first_separator(s) <= s.len(),
        first_separator(s) < s.len() ==> first_separator(s) + 2 <= s.len() && s[first_separator(s)]
            == ',' && s[first_separator(s) + 1] == ' ',
    decreases s.len(),
{
    if s.len() >= 2 && !(s[0] == ',' && s[1] == ' ') {
        lemma_first_separator_bounds(s.drop_first());
    }
}

/// A row has at least one field.
pub proof fn lemma_fields_of_nonempty(s: Seq<char>)
    ensures
        fields_of(s).len() >= 1,
{
    lemma_first_separator_bounds(s);
}

/// What a line of the manifest says.
///
/// A line of four fields with a path, a size that fits in 64 bits and a
/// checksum that fits in 32 is an entry. Any other line that has a separator
/// and something before the first one is malformed, with that text as its
/// path. The rest is unreadable.
pub open spec fn parsed_row(line: Seq<char>) -> RowView {
    let fields = fields_of(line);
    if fields.len() < 2 || fields[0].len() == 0 {
        RowView::Unreadable
    } else if fields.len() == 4 && parsed_u64(fields[1]) is Some && parsed_u32(fields[3]) is Some {
        RowView::Entry(
            EntryView {
                path: fields[0],
                size: parsed_u64(fields[1])->0,
                digest: fields[2],
                checksum: parsed_u32(fields[3])->0,
            },
        )
    } else {
        RowView::Malformed { path: fields[0] }
    }
}

/// Where the first line feed of `s` stands, or the length of `s` if it has
/// none.
pub open spec fn first_newline(s: Seq<char>) -> int
    decreases s.len(),
{
    if s.len() == 0 || s[0] == '\n' {
        0
    } else {
        1 + first_newline(s.drop_first())
    }
}

/// A line without the carriage return at its end, if it has one.
pub open spec fn without_return(line: Seq<char>) -> Seq<char> {
    if line.len() > 0 && line.last() == '\r' {
        line.drop_last()
    } else {
        line
    }
}

/// The lines of a text. Each line feed ends a line, and a carriage return
/// just before it goes with it. What follows the last line feed is a line
/// too, unless it is empty.
pub open spec fn lines_of(s: Seq<char>) -> Seq<Seq<char>>
    decreases s.len(),
    via lines_of_decreases
{
    let n = first_newline(s);
    if s.len() == 0 {
        Seq::empty()
    } else if n >= s.len() {
        seq![s]
    } else {
        seq![without_return(s.take(n))] + lines_of(s.skip(n + 1))
    }
}

#[via_fn]
proof fn lines_of_decreases(s: Seq<char>) {
    lemma_first_newline_bounds(s);
}

/// The first line feed stands inside the text, or there is none.
pub proof fn lemma_first_newline_bounds(s: Seq<char>)
    ensures
        0 <= first_newline(s) <= s.len(),
        first_newline(s) < s.len() ==> s[first_newline(s)] == '\n',
        forall|i: int| 0 <= i < first_newline(s) ==> #[trigger] s[i] != '\n',
    decreases s.len(),
{
    if s.len() > 0 && s[0] != '\n' {
        lemma_first_newline_bounds(s.drop_first());
        assert forall|i: int| 0 <= i < first_newline(s) implies #[trigger] s[i] != '\n' by {
            if i > 0 {
                assert(s[i] == s.drop_first()[i - 1]);
            }
        }
    }
}

/// Whether `line` can be the header row: it has four fields and is not
/// itself an entry. The names in it are not looked at.
pub open spec fn is_header(line: Seq<char>) -> bool {
    fields_of(line).len() == 4 && !(parsed_row(line) is Entry)
}

/// What a manifest says: its rows after the header, in their order, or
/// `None` if it does not begin with a header row.
pub open spec fn parsed_index(text: Seq<char>) -> Option<Seq<RowView>> {
    let lines = lines_of(text);
    if lines.len() > 0 && is_header(lines[0]) {
        Some(lines.skip(1).map_values(|line: Seq<char>| parsed_row(line)))
    } else {
        None
    }
}

/// Whether one of the rows from `from` on is about `path`.
pub open spec fn is_told_from(rows: Seq<RowView>, from: int, path: Seq<char>) -> bool {
    exists|later: int| from <= later < rows.len() && row_path(#[trigger] rows[later]) == Some(path)
}

/// Whether the row at `place` is superseded: a later row is about the same
/// path. Of the rows about one path, the last one counts.
pub open spec fn is_superseded(rows: Seq<RowView>, place: int) -> bool {
    row_path(rows[place]) matches Some(path) && is_told_from(rows, place + 1, path)
}

/// How many findings a row can give rise to: two for an entry, whose digest
/// and checksum may both differ, and one for any other row.
pub open spec fn row_weight(row: RowView) -> nat {
    if row is Entry {
        2
    } else {
        1
    }
}

/// How many findings `rows` can give rise to, taken together.
pub open spec fn rows_weight(rows: Seq<RowView>) -> nat
    decreases rows.len(),
{
    if rows.len() == 0 {
        0
    } else {
        row_weight(rows[0]) + rows_weight(rows.drop_first())
    }
}

/// A row added at the end adds its own weight.
pub proof fn lemma_rows_weight_push(rows: Seq<RowView>, row: RowView)
    ensures
        rows_weight(rows.push(row)) == rows_weight(rows) + row_weight(row),
    decreases rows.len(),
{
    let grown = rows.push(row);
    if rows.len() == 0 {
        assert(grown[0] == row);
        assert(rows_weight(grown.drop_first()) == 0);
    } else {
        assert(grown[0] == rows[0]);
        assert(grown.drop_first() == rows.drop_first().push(row));
        lemma_rows_weight_push(rows.drop_first(), row);
    }
}

/// An entry takes at least two characters to write.
pub proof fn lemma_entry_line_length(line: Seq<char>)
    requires
        parsed_row(line) is Entry,
    ensures
        line.len() >= 2,
{
    lemma_first_separator_bounds(line);
}

/// Where the first separator of `chars[from..to]` begins, or `to` if it has
/// none.
fn find_separator(chars: &[char], from: usize, to: usize) -> (at: usize)
    requires
        from <= to <= chars@.len(),
    ensures
        from <= at <= to,
        at - from == first_separator(chars@.subrange(from as int, to as int)),
{
    let mut i: usize = from;
    while i < to && to - i >= 2
        invariant
            from <= i <= to <= chars@.len(),
            first_separator(chars@.subrange(from as int, to as int)) == (i - from)
                + first_separator(chars@.subrange(i as int, to as int)),
        decreases to - i,
    {
        let ghost tail = chars@.subrange(i as int, to as int);
        assert(tail[0] == chars@[i as int] && tail[1] == chars@[i + 1]);
        if chars[i] == ',' && chars[i + 1] == ' ' {
            return i;
        }
        assert(tail.drop_first() == chars@.subrange(i + 1, to as int));
        i += 1;
    }
    to
}

/// Whether the line `chars[from..to]` has exactly four fields.
fn has_four_fields(chars: &[char], from: usize, to: usize) -> (out: bool)
    requires
        from <= to <= chars@.len(),
    ensures
        out == (fields_of(chars@.subrange(from as int, to as int)).len() == 4),
{
    let mut count: usize = 1;
    let mut pos: usize = from;
    loop
        invariant
            from <= pos <= to <= chars@.len(),
            1 <= count <= 4,
            fields_of(chars@.subrange(from as int, to as int)).len() == (count - 1) + fields_of(
                chars@.subrange(pos as int, to as int),
            ).len(),
        decreases to - pos,
    {
        let ghost rest = chars@.subrange(pos as int, to as int);
        let at = find_separator(chars, pos, to);
        proof {
            lemma_first_separator_bounds(rest);
        }
        if at == to {
            return count == 4;
        }
        proof {
            assert(rest.skip(at - pos + 2) == chars@.subrange(at + 2, to as int));
            lemma_fields_of_nonempty(chars@.subrange(at + 2, to as int));
        }
        if count == 4 {
            return false;
        }
        count += 1;
        pos = at + 2;
    }
}

/// Reads the line `chars[from..to]` of a manifest.
pub fn read_row(chars: &[char], from: usize, to: usize) -> (row: Row)
    requires
        from <= to <= chars@.len(),
    ensures
        row@ == parsed_row(chars@.subrange(from as int, to as int)),
{
    let ghost line = chars@.subrange(from as int, to as int);
    let end0 = find_separator(chars, from, to);
    if end0 == to || end0 == from {
        proof {
            lemma_first_separator_bounds(line);
            if end0 != to {
                lemma_fields_of_nonempty(line.skip(2));
                assert(fields_of(line)[0] == line.take(0));
            }
        }
        return Row::Unreadable;
    }
    proof {
        lemma_first_separator_bounds(line);
    }
    let ghost rest1 = chars@.subrange(end0 + 2, to as int);
    proof {
        assert(line.take(end0 - from) == chars@.subrange(from as int, end0 as int));
        assert(line.skip(end0 - from + 2) == rest1);
        lemma_fields_of_nonempty(rest1);
        assert(fields_of(line)[0] == chars@.subrange(from as int, end0 as int));
    }
    let path = string_of(chars, from, end0);
    let start1 = end0 + 2;
    let end1 = find_separator(chars, start1, to);
    if end1 == to {
        assert(fields_of(line).len() == 2);
        return Row::Malformed { path };
    }
    proof {
        lemma_first_separator_bounds(rest1);
    }
    let ghost rest2 = chars@.subrange(end1 + 2, to as int);
    proof {
        assert(rest1.take(end1 - start1) == chars@.subrange(start1 as int, end1 as int));
        assert(rest1.skip(end1 - start1 + 2) == rest2);
        lemma_fields_of_nonempty(rest2);
    }
    let start2 = end1 + 2;
    let end2 = find_separator(chars, start2, to);
    if end2 == to {
        assert(fields_of(line).len() == 3);
        return Row::Malformed { path };
    }
    proof {
        lemma_first_separator_bounds(rest2);
    }
    let ghost rest3 = chars@.subrange(end2 + 2, to as int);
    proof {
        assert(rest2.take(end2 - start2) == chars@.subrange(start2 as int, end2 as int));
        assert(rest2.skip(end2 - start2 + 2) == rest3);
        lemma_fields_of_nonempty(rest3);
    }
    let start3 = end2 + 2;
    let end3 = find_separator(chars, start3, to);
    if end3 != to {
        proof {
            lemma_first_separator_bounds(rest3);
            lemma_fields_of_nonempty(rest3.skip(end3 - start3 + 2));
            assert(fields_of(line).len() >= 5);
        }
        return Row::Malformed { path };
    }
    proof {
        assert(fields_of(rest3) == seq![rest3]);
        assert(fields_of(line) == seq![
            chars@.subrange(from as int, end0 as int),
            chars@.subrange(start1 as int, end1 as int),
            chars@.subrange(start2 as int, end2 as int),
            rest3,
        ]);
    }
    match (read_u64(chars, start1, end1), read_u32(chars, start3, to)) {
        (Some(size), Some(checksum)) => Row::Entry(
            IndexEntry { path, size, digest: string_of(chars, start2, end2), checksum },
        ),
        _ => Row::Malformed { path },
    }
}

/// Where the first line feed of `chars[from..]` stands, or the length of
/// `chars` if it has none.
fn find_newline(chars: &[char], from: usize) -> (at: usize)
    requires
        from <= chars@.len(),
    ensures
        from <= at <= chars@.len(),
        at - from == first_newline(chars@.skip(from as int)),
{
    let mut i: usize = from;
    while i < chars.len()
        invariant
            from <= i <= chars@.len(),
            first_newline(chars@.skip(from as int)) == (i - from) + first_newline(
                chars@.skip(i as int),
            ),
        decreases chars@.len() - i,
    {
        assert(chars@.skip(i as int)[0] == chars@[i as int]);
        if chars[i] == '\n' {
            return i;
        }
        assert(chars@.skip(i as int).drop_first() == chars@.skip(i + 1));
        i += 1;
    }
    i
}

/// The end of the line `chars[from..feed]`, where `feed` is the place of
/// its line feed: before the carriage return, if one stands there.
fn line_end(chars: &[char], from: usize, feed: usize) -> (end: usize)
    requires
        from <= feed <= chars@.len(),
    ensures
        from <= end <= feed,
        chars@.subrange(from as int, end as int) == without_return(
            chars@.subrange(from as int, feed as int),
        ),
{
    if feed > from && chars[feed - 1] == '\r' {
        assert(chars@.subrange(from as int, feed as int).drop_last() == chars@.subrange(
            from as int,
            feed - 1,
        ));
        feed - 1
    } else {
        feed
    }
}

/// Reads a manifest from its characters, as [`parse_index`] does. The rows
/// weigh no more than the manifest has characters.
pub fn read_index(chars: &[char]) -> (out: Option<Vec<Row>>)
    ensures
        out is Some <==> parsed_index(chars@) is Some,
        out matches Some(rows) ==> rows.deep_view() == parsed_index(chars@)->0 && rows_weight(
            rows.deep_view(),
        ) <= chars@.len(),
{
    let n = chars.len();
    if n == 0 {
        return None;
    }
    assert(chars@.skip(0) == chars@);
    let feed = find_newline(chars, 0);
    let ghost lines = lines_of(chars@);
    let ghost parse = |line: Seq<char>| parsed_row(line);
    let mut pos: usize;
    let header_end: usize;
    if feed == n {
        assert(chars@.subrange(0, n as int) == chars@);
        header_end = n;
        pos = n;
    } else {
        assert(chars@.take(feed as int) == chars@.subrange(0, feed as int));
        header_end = line_end(chars, 0, feed);
        pos = feed + 1;
    }
    assert(lines[0] == chars@.subrange(0, header_end as int));
    assert(lines.skip(1) == lines_of(chars@.skip(pos as int))) by {
        if feed == n {
            assert(lines_of(chars@.skip(pos as int)).len() == 0);
        }
    }
    if !has_four_fields(chars, 0, header_end) {
        return None;
    }
    match read_row(chars, 0, header_end) {
        Row::Entry(_) => {
            return None;
        },
        _ => {},
    }
    let mut rows: Vec<Row> = Vec::new();
    let ghost start = pos;
    while pos < n
        invariant
            pos <= n == chars@.len(),
            rows.deep_view() + lines_of(chars@.skip(pos as int)).map_values(parse) == lines_of(
                chars@.skip(start as int),
            ).map_values(parse),
            parse == |line: Seq<char>| parsed_row(line),
            rows_weight(rows.deep_view()) <= pos,
        decreases n - pos,
    {
        let ghost tail = chars@.skip(pos as int);
        let ghost before = rows.deep_view();
        let feed = find_newline(chars, pos);
        let end: usize;
        let next: usize;
        if feed == n {
            assert(chars@.subrange(pos as int, n as int) == tail);
            assert(lines_of(chars@.skip(n as int)).len() == 0);
            end = n;
            next = n;
        } else {
            assert(tail.take(feed - pos) == chars@.subrange(pos as int, feed as int));
            assert(tail.skip(feed - pos + 1) == chars@.skip(feed + 1));
            end = line_end(chars, pos, feed);
            next = feed + 1;
        }
        let row = read_row(chars, pos, end);
        proof {
            let line = chars@.subrange(pos as int, end as int);
            let after = lines_of(chars@.skip(next as int));
            assert(lines_of(tail) == seq![line] + after);
            assert((seq![line] + after).map_values(parse) == seq![parse(line)] + after.map_values(
                parse,
            ));
            assert(before.push(row@) + after.map_values(parse) == before + (seq![parse(line)]
                + after.map_values(parse)));
            lemma_rows_weight_push(before, row@);
            if row@ is Entry {
                lemma_entry_line_length(line);
            }
        }
        rows.push(row);
        assert(rows.deep_view() == before.push(row@));
        pos = next;
    }
    assert(lines_of(chars@.skip(pos as int)).len() == 0);
    assert(rows.deep_view() + Seq::<RowView>::empty() == rows.deep_view());
    Some(rows)
}

/// Reads a manifest: `None` if it does not begin with a header row, else
/// its rows after the header, in their order. A row that is not well formed
/// stands among them as what it is and stops nothing.
pub fn parse_index(text: &str) -> (out: Option<Vec<Row>>)
    ensures
        out is Some <==> parsed_index(text@) is Some,
        out matches Some(rows) ==> rows.deep_view() == parsed_index(text@)->0,
{
    let chars = chars_of(text);
    read_index(chars.as_slice())
}

/// For each row, whether it is superseded by a later row about the same
/// path.
pub fn superseded_rows(rows: &[Row]) -> (flags: Vec<bool>)
    ensures
        flags@.len() == rows@.len(),
        forall|i: int|
            0 <= i < rows@.len() ==> #[trigger] flags@[i] == is_superseded(rows.deep_view(), i),
{
    let n = rows.len();
    let mut flags: Vec<bool> = Vec::new();
    while flags.len() < n
        invariant
            flags@.len() <= n,
            forall|k: int| 0 <= k < flags@.len() ==> !#[trigger] flags@[k],
        decreases n - flags@.len(),
    {
        flags.push(false);
    }
    let ghost all = rows.deep_view();
    let mut seen = StringHashSet::new();
    let mut i: usize = n;
    while i > 0
        invariant
            i <= n == rows@.len(),
            all == rows.deep_view(),
            flags@.len() == n,
            forall|k: int| 0 <= k < i ==> !#[trigger] flags@[k],
            forall|k: int| i <= k < n ==> #[trigger] flags@[k] == is_superseded(all, k),
            forall|path: Seq<char>|
                #[trigger] seen@.contains(path) == is_told_from(all, i as int, path),
        decreases i,
    {
        i -= 1;
        assert(all[i as int] == rows@[i as int]@);
        let told = rows[i].path();
        proof {
            assert forall|path: Seq<char>| is_told_from(all, i as int, path) == (row_path(
                all[i as int],
            ) == Some(path) || is_told_from(all, i + 1, path)) by {
                if is_told_from(all, i + 1, path) {
                    let later = choose|later: int|
                        i + 1 <= later < all.len() && row_path(#[trigger] all[later]) == Some(path);
                    assert(i <= later < all.len() && row_path(all[later]) == Some(path));
                }
                if is_told_from(all, i as int, path) {
                    let later = choose|later: int|
                        i <= later < all.len() && row_path(#[trigger] all[later]) == Some(path);
                    if later != i {
                        assert(i + 1 <= later < all.len() && row_path(all[later]) == Some(path));
                    }
                }
            }
        }
        match told {
            Some(path) => {
                let again = seen.contains(path.as_str());
                flags.set(i, again);
                seen.insert(path.clone());
            },
            None => {},
        }
    }
    flags
}

} // verus!
