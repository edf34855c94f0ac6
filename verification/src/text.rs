//! Characters, strings and numbers as text.
//!
//! The manifest is plain text, so sizes and checksums travel as decimal
//! numbers and digests as lowercase hexadecimal. This module holds the
//! encoders and decoders, their meaning as spec functions, and the facts
//! that make a written number readable again.

use vstd::prelude::*;

verus! {

/// `String::push` of the standard library: it appends the one character to
/// the end of the string and leaves the rest as it was.
pub assume_specification[ String::push ](s: &mut String, c: char)
    ensures
        final(s)@ == old(s)@.push(c),
;

/// The character that stands for the decimal digit `d`.
pub open spec fn digit_char(d: nat) -> char
    recommends
        d < 10,
{
    (48 + d) as u8 as char
}

/// Whether `c` is one of `0` to `9`.
pub open spec fn is_digit(c: char) -> bool {
    '0' <= c <= '9'
}

/// The number that the digit `c` stands for.
pub open spec fn digit_value(c: char) -> nat
    recommends
        is_digit(c),
{
    (c as u32 - 48) as nat
}

/// Whether every character of `s` is a decimal digit.
pub open spec fn all_digits(s: Seq<char>) -> bool {
    forall|i: int| 0 <= i < s.len() ==> is_digit(#[trigger] s[i])
}

/// The shortest decimal numeral of `n`: no sign, no leading zero but for
/// zero itself.
pub open spec fn decimal_text(n: nat) -> Seq<char>
    decreases n,
{
    if n < 10 {
        seq![digit_char(n)]
    } else {
        decimal_text(n / 10).push(digit_char(n % 10))
    }
}

/// The number that a run of decimal digits denotes, most significant digit
/// first. The empty run denotes zero.
pub open spec fn digits_value(s: Seq<char>) -> nat
    decreases s.len(),
{
    if s.len() == 0 {
        0
    } else {
        digits_value(s.drop_last()) * 10 + digit_value(s.last())
    }
}

/// A numeral without its optional leading `+`.
pub open spec fn unsigned_body(s: Seq<char>) -> Seq<char> {
    if s.len() > 0 && s[0] == '+' {
        s.drop_first()
    } else {
        s
    }
}

/// The number that `s` denotes, if it is a numeral: an optional `+`, then
/// one or more decimal digits and nothing else. Leading zeros are allowed.
pub open spec fn number_value(s: Seq<char>) -> Option<nat> {
    let body = unsigned_body(s);
    if body.len() > 0 && all_digits(body) {
        Some(digits_value(body))
    } else {
        None
    }
}

/// The numeral `s` as a `u64`, if it is one and fits.
pub open spec fn parsed_u64(s: Seq<char>) -> Option<u64> {
    match number_value(s) {
        Some(v) => if v <= u64::MAX {
            Some(v as u64)
        } else {
            None
        },
        None => None,
    }
}

/// The numeral `s` as a `u32`, if it is one and fits.
pub open spec fn parsed_u32(s: Seq<char>) -> Option<u32> {
    match number_value(s) {
        Some(v) => if v <= u32::MAX {
            Some(v as u32)
        } else {
            None
        },
        None => None,
    }
}

/// The character of the hexadecimal digit `n`, in lower case.
pub open spec fn hex_char(n: nat) -> char
    recommends
        n < 16,
{
    if n < 10 {
        (48 + n) as u8 as char
    } else {
        (87 + n) as u8 as char
    }
}

/// Whether `c` is a lowercase hexadecimal digit.
pub open spec fn is_hex_digit(c: char) -> bool {
    '0' <= c <= '9' || 'a' <= c <= 'f'
}

/// The lowercase hexadecimal encoding of `bytes`: two digits per byte, the
/// high half first.
pub open spec fn hex_text(bytes: Seq<u8>) -> Seq<char> {
    Seq::new(
        2 * bytes.len(),
        |i: int|
            if i % 2 == 0 {
                hex_char((bytes[i / 2] / 16) as nat)
            } else {
                hex_char((bytes[i / 2] % 16) as nat)
            },
    )
}

/// Copies the characters of `s` into a vector.
pub fn chars_of(s: &str) -> (out: Vec<char>)
    ensures
        out@ == s@,
{
    let mut out: Vec<char> = Vec::new();
    for c in it: s.chars()
        invariant
            out@.len() == it.index(),
            forall|i: int| 0 <= i < out@.len() ==> out@[i] == it.seq()[i],
    {
        out.push(c);
    }
    out
}

/// Appends the characters `chars[from..to]` to `out`.
pub fn push_chars(out: &mut String, chars: &[char], from: usize, to: usize)
    requires
        from <= to <= chars@.len(),
    ensures
        final(out)@ == old(out)@ + chars@.subrange(from as int, to as int),
{
    let mut i: usize = from;
    while i < to
        invariant
            from <= i <= to <= chars@.len(),
            out@ == old(out)@ + chars@.subrange(from as int, i as int),
        decreases to - i,
    {
        out.push(chars[i]);
        assert(chars@.subrange(from as int, i + 1) == chars@.subrange(
            from as int,
            i as int,
        ).push(chars@[i as int]));
        i += 1;
    }
}

/// Builds a string from the characters `chars[from..to]`.
pub fn string_of(chars: &[char], from: usize, to: usize) -> (out: String)
    requires
        from <= to <= chars@.len(),
    ensures
        out@ == chars@.subrange(from as int, to as int),
{
    let mut out = String::new();
    push_chars(&mut out, chars, from, to);
    out
}

fn digit(d: u8) -> (c: char)
    requires
        d < 10,
    ensures
        c == digit_char(d as nat),
{
    (48u8 + d) as char
}

/// Writes `n` as its shortest decimal numeral.
pub fn decimal(n: u64) -> (out: String)
    ensures
        out@ == decimal_text(n as nat),
{
    // The digits from the least significant up, but for the leading one.
    let mut low: Vec<char> = Vec::new();
    let mut rest: u64 = n;
    while rest >= 10
        invariant
            decimal_text(n as nat) == decimal_text(rest as nat) + low@.reverse(),
        decreases rest,
    {
        let d: u8 = (rest % 10) as u8;
        proof {
            let grown = low@.push(digit_char(d as nat));
            assert(grown.reverse() == seq![digit_char(d as nat)] + low@.reverse());
            assert(decimal_text(rest as nat) + low@.reverse() == decimal_text((rest / 10) as nat)
                + grown.reverse());
        }
        low.push(digit(d));
        rest = rest / 10;
    }
    let mut out = String::new();
    out.push(digit(rest as u8));
    let mut k: usize = low.len();
    while k > 0
        invariant
            k <= low@.len(),
            out@ == decimal_text(rest as nat) + low@.reverse().take(low@.len() - k),
        decreases k,
    {
        k -= 1;
        out.push(low[k]);
        proof {
            let r = low@.reverse();
            let m = low@.len() - k;
            assert(r.take(m) == r.take(m - 1).push(r[m - 1]));
        }
    }
    assert(low@.reverse().take(low@.len() as int) == low@.reverse());
    out
}

/// A run of digits denotes at least what any of its prefixes denotes.
pub proof fn lemma_digits_value_prefix(s: Seq<char>, k: int)
    requires
        0 <= k <= s.len(),
    ensures
        digits_value(s.take(k)) <= digits_value(s),
    decreases s.len() - k,
{
    if k == s.len() {
        assert(s.take(k) == s);
    } else {
        assert(s.drop_last().take(k) == s.take(k));
        lemma_digits_value_prefix(s.drop_last(), k);
    }
}

/// Reads the numeral `chars[from..to]`, if it fits in 64 bits.
pub fn read_u64(chars: &[char], from: usize, to: usize) -> (out: Option<u64>)
    requires
        from <= to <= chars@.len(),
    ensures
        out == parsed_u64(chars@.subrange(from as int, to as int)),
{
    let ghost whole = chars@.subrange(from as int, to as int);
    let start: usize = if from < to && chars[from] == '+' {
        from + 1
    } else {
        from
    };
    let ghost body = unsigned_body(whole);
    assert(body == chars@.subrange(start as int, to as int));
    if start == to {
        return None;
    }
    let mut acc: u64 = 0;
    let mut i: usize = start;
    while i < to
        invariant
            from <= start <= i <= to <= chars@.len(),
            body == chars@.subrange(start as int, to as int),
            body == unsigned_body(chars@.subrange(from as int, to as int)),
            all_digits(body.take(i - start)),
            acc == digits_value(body.take(i - start)),
        decreases to - i,
    {
        let c = chars[i];
        assert(c == body[i - start]);
        if !(c >= '0' && c <= '9') {
            assert(!is_digit(body[i - start]));
            return None;
        }
        let d: u64 = (c as u32 - 48) as u64;
        proof {
            let upto = body.take(i - start + 1);
            assert(upto.drop_last() == body.take(i - start));
            assert(upto.last() == c);
            assert(digits_value(upto) == acc * 10 + d);
            lemma_digits_value_prefix(body, i - start + 1);
        }
        if acc > (u64::MAX - d) / 10 {
            return None;
        }
        acc = acc * 10 + d;
        i += 1;
    }
    assert(body.take(i - start) == body);
    Some(acc)
}

/// Reads the numeral `chars[from..to]`, if it fits in 32 bits.
pub fn read_u32(chars: &[char], from: usize, to: usize) -> (out: Option<u32>)
    requires
        from <= to <= chars@.len(),
    ensures
        out == parsed_u32(chars@.subrange(from as int, to as int)),
{
    match read_u64(chars, from, to) {
        Some(v) => if v <= 0xffff_ffff {
            Some(v as u32)
        } else {
            None
        },
        None => None,
    }
}

/// Reads a numeral that fits in 64 bits: an optional `+`, then decimal
/// digits. Anything else, a numeral too large included, gives `None`.
pub fn parse_u64(text: &str) -> (out: Option<u64>)
    ensures
        out == parsed_u64(text@),
{
    let chars = chars_of(text);
    assert(chars@.subrange(0, chars@.len() as int) == chars@);
    read_u64(chars.as_slice(), 0, chars.len())
}

/// Reads a numeral that fits in 32 bits: an optional `+`, then decimal
/// digits. Anything else, a numeral too large included, gives `None`.
pub fn parse_u32(text: &str) -> (out: Option<u32>)
    ensures
        out == parsed_u32(text@),
{
    let chars = chars_of(text);
    assert(chars@.subrange(0, chars@.len() as int) == chars@);
    read_u32(chars.as_slice(), 0, chars.len())
}

fn hex_digit(n: u8) -> (c: char)
    requires
        n < 16,
    ensures
        c == hex_char(n as nat),
{
    if n < 10 {
        (48u8 + n) as char
    } else {
        (87u8 + n) as char
    }
}

/// Encodes `bytes` in lowercase hexadecimal.
pub fn hex_lower(bytes: &[u8]) -> (out: String)
    ensures
        out@ == hex_text(bytes@),
{
    let mut out = String::new();
    let mut i: usize = 0;
    while i < bytes.len()
        invariant
            i <= bytes@.len(),
            out@ == hex_text(bytes@.take(i as int)),
        decreases bytes@.len() - i,
    {
        let b: u8 = bytes[i];
        out.push(hex_digit(b / 16));
        out.push(hex_digit(b % 16));
        i += 1;
        assert(out@ =~= hex_text(bytes@.take(i as int)));
    }
    assert(bytes@.take(i as int) == bytes@);
    out
}

/// A decimal numeral holds digits only, and at least one.
pub proof fn lemma_decimal_text_digits(n: nat)
    ensures
        decimal_text(n).len() > 0,
        all_digits(decimal_text(n)),
    decreases n,
{
    if n >= 10 {
        lemma_decimal_text_digits(n / 10);
    }
}

/// Reading a written number gives the number back.
pub proof fn lemma_decimal_round_trip(n: nat)
    ensures
        number_value(decimal_text(n)) == Some(n),
{
    lemma_decimal_text_digits(n);
    lemma_decimal_text_value(n);
    let text = decimal_text(n);
    assert(is_digit(text[0]));
    assert(unsigned_body(text) == text);
}

proof fn lemma_decimal_text_value(n: nat)
    ensures
        digits_value(decimal_text(n)) == n,
    decreases n,
{
    let text = decimal_text(n);
    assert(digit_value(digit_char(n % 10)) == n % 10);
    if n < 10 {
        assert(text.drop_last().len() == 0);
        assert(digits_value(text.drop_last()) == 0);
        assert(text.last() == digit_char(n));
    } else {
        lemma_decimal_text_value(n / 10);
        assert(text.drop_last() == decimal_text(n / 10));
        assert(text.last() == digit_char(n % 10));
    }
}

/// A hexadecimal encoding has two characters for each byte, all of them
/// lowercase hexadecimal digits.
pub proof fn lemma_hex_text_shape(bytes: Seq<u8>)
    ensures
        hex_text(bytes).len() == 2 * bytes.len(),
        forall|i: int|
            0 <= i < hex_text(bytes).len() ==> is_hex_digit(#[trigger] hex_text(bytes)[i]),
{
}

/// Different byte strings have different hexadecimal encodings.
pub proof fn lemma_hex_text_injective(a: Seq<u8>, b: Seq<u8>)
    requires
        hex_text(a) == hex_text(b),
    ensures
        a == b,
{
    assert(hex_text(a).len() == 2 * a.len());
    assert(hex_text(b).len() == 2 * b.len());
    assert forall|k: int| 0 <= k < a.len() implies a[k] == b[k] by {
        let hi_a = hex_text(a)[2 * k];
        let lo_a = hex_text(a)[2 * k + 1];
        assert(hi_a == hex_char((a[k] / 16) as nat));
        assert(lo_a == hex_char((a[k] % 16) as nat));
        assert(hex_text(b)[2 * k] == hex_char((b[k] / 16) as nat));
        assert(hex_text(b)[2 * k + 1] == hex_char((b[k] % 16) as nat));
        lemma_hex_char_injective((a[k] / 16) as nat, (b[k] / 16) as nat);
        lemma_hex_char_injective((a[k] % 16) as nat, (b[k] % 16) as nat);
    }
    assert(a =~= b);
}

proof fn lemma_hex_char_injective(m: nat, n: nat)
    requires
        m < 16,
        n < 16,
        hex_char(m) == hex_char(n),
    ensures
        m == n,
{
    assert(hex_char(m) as u32 == hex_char(n) as u32);
}

} // verus!
