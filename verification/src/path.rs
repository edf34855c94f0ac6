//! The path resolver: root and relative path to a filesystem path and back,
//! and the exclusion patterns.
//!
//! Paths are text with `/` between their segments; [`to_slashes`] writes a
//! path of the machine that way. A manifest holds paths relative to the
//! root, and exclusion patterns are matched against those relative paths,
//! never against absolute ones, so that a manifest and its patterns mean
//! the same on every machine.
//!
//! The patterns are those of the crate `glob_match`: `?` for one character,
//! `*` for any run of characters within a segment, `**` for any run of
//! whole segments, `[ab]` and `[a-z]` for character classes, `{a,b}` for
//! alternatives, a leading `!` to negate and `\` to escape. A pattern also
//! matches the path that it is equal to, whatever characters it holds.

use vstd::prelude::*;
use vstd::utf8::encode_utf8;

use crate::text::{chars_of, string_of};

verus! {

/// Why a path was refused.
#[derive(Debug, Clone, Copy, PartialEq, Eq, Structural)]
pub enum PathError {
    /// The path does not lie under the root.
    OutsideRoot,
    /// The path is too long for the pattern matcher.
    TooLong,
}

/// The root as a prefix of the paths under it: with one `/` at its end,
/// unless it is empty or has one already.
pub open spec fn root_prefix(root: Seq<char>) -> Seq<char> {
    if root.len() == 0 || root.last() == '/' {
        root
    } else {
        root.push('/')
    }
}

/// The filesystem path of `relative` under `root`.
pub open spec fn resolved(root: Seq<char>, relative: Seq<char>) -> Seq<char> {
    root_prefix(root) + relative
}

/// Whether `absolute` lies under `root`.
pub open spec fn is_under(root: Seq<char>, absolute: Seq<char>) -> bool {
    root_prefix(root).is_prefix_of(absolute)
}

/// What is left of `absolute` once the root is taken off its front.
pub open spec fn relative_part(root: Seq<char>, absolute: Seq<char>) -> Seq<char> {
    absolute.skip(root_prefix(root).len() as int)
}

/// The path with `/` in place of every `separator`.
pub open spec fn with_slashes(path: Seq<char>, separator: char) -> Seq<char> {
    Seq::new(
        path.len(),
        |i: int|
            if path[i] == separator {
                '/'
            } else {
                path[i]
            },
    )
}

/// Whether the glob `pattern` matches `path`, as the crate `glob_match`
/// decides it on the target this library is built for.
pub uninterp spec fn glob_matches(pattern: Seq<char>, path: Seq<char>) -> bool;

/// Whether `text` is short enough for the matcher, which keeps positions in
/// 32 bits: its UTF-8 encoding has fewer than `u32::MAX` bytes.
pub open spec fn fits_matcher(text: Seq<char>) -> bool {
    encode_utf8(text).len() < u32::MAX
}

/// Whether every pattern is short enough for the matcher.
pub open spec fn all_fit_matcher(patterns: Seq<Seq<char>>) -> bool {
    forall|i: int| 0 <= i < patterns.len() ==> fits_matcher(#[trigger] patterns[i])
}

/// Whether `pattern` matches `path`: it is the path itself, or it matches
/// the path as a glob.
pub open spec fn pattern_matches(pattern: Seq<char>, path: Seq<char>) -> bool {
    pattern == path || glob_matches(pattern, path)
}

/// Whether one of `patterns` matches `path`.
pub open spec fn excluded_by(path: Seq<char>, patterns: Seq<Seq<char>>) -> bool {
    exists|i: int| 0 <= i < patterns.len() && pattern_matches(#[trigger] patterns[i], path)
}

/// Whether `index` is the place of the first of `patterns` that matches
/// `path`.
pub open spec fn is_first_match(path: Seq<char>, patterns: Seq<Seq<char>>, index: int) -> bool {
    &&& 0 <= index < patterns.len()
    &&& pattern_matches(patterns[index], path)
    &&& forall|j: int| 0 <= j < index ==> !pattern_matches(#[trigger] patterns[j], path)
}

/// Calls `glob_match` of the crate `glob_match`. Trusted: the answer depends
/// on the two texts alone and is the one that [`glob_matches`] names. Texts
/// of `u32::MAX` bytes or more are kept out, since the matcher counts
/// positions in 32 bits.
#[verifier::external_body]
fn glob_match(pattern: &str, path: &str) -> (hit: bool)
    requires
        fits_matcher(pattern@),
        fits_matcher(path@),
    ensures
        hit == glob_matches(pattern@, path@),
{
    glob_match::glob_match(pattern, path)
}

/// Whether `text` is short enough for the matcher.
pub fn fits(text: &str) -> (out: bool)
    ensures
        out == fits_matcher(text@),
{
    text.as_bytes().len() < 0xffff_ffff
}

/// Writes a path of the machine, whose segments `separator` stands
/// between, with `/` between them, as the library and the manifest have it.
pub fn to_slashes(path: &str, separator: char) -> (out: String)
    ensures
        out@ == with_slashes(path@, separator),
{
    let chars = chars_of(path);
    let mut out = String::new();
    let mut i: usize = 0;
    while i < chars.len()
        invariant
            i <= chars@.len(),
            chars@ == path@,
            out@ == with_slashes(path@, separator).take(i as int),
        decreases chars@.len() - i,
    {
        let c = chars[i];
        out.push(if c == separator {
            '/'
        } else {
            c
        });
        i += 1;
        assert(with_slashes(path@, separator).take(i as int) == with_slashes(
            path@,
            separator,
        ).take(i - 1).push(with_slashes(path@, separator)[i - 1]));
    }
    assert(with_slashes(path@, separator).take(i as int) == with_slashes(path@, separator));
    out
}

/// Joins `relative` to `root`. Nothing is looked up on disk.
pub fn resolve(root: &str, relative: &str) -> (out: String)
    ensures
        out@ == resolved(root@, relative@),
{
    let root_chars = chars_of(root);
    let mut out = root.to_owned();
    let n = root_chars.len();
    if n > 0 && root_chars[n - 1] != '/' {
        out.push('/');
    }
    out.append(relative);
    out
}

/// Takes the root off the front of `absolute`.
///
/// Fails with [`PathError::OutsideRoot`] exactly when `absolute` does not
/// lie under `root`.
pub fn relativize(root: &str, absolute: &str) -> (out: Result<String, PathError>)
    ensures
        is_under(root@, absolute@) ==> out is Ok && out->Ok_0@ == relative_part(root@, absolute@),
        !is_under(root@, absolute@) ==> out == Err::<String, PathError>(PathError::OutsideRoot),
{
    let r = chars_of(root);
    let a = chars_of(absolute);
    let n = r.len();
    if a.len() < n {
        return Err(PathError::OutsideRoot);
    }
    let mut i: usize = 0;
    while i < n
        invariant
            i <= n == r@.len() <= a@.len(),
            r@ == root@,
            a@ == absolute@,
            a@.take(i as int) == r@.take(i as int),
        decreases n - i,
    {
        if a[i] != r[i] {
            proof {
                let p = root_prefix(root@);
                if p.is_prefix_of(absolute@) {
                    assert(p[i as int] == absolute@.subrange(0, p.len() as int)[i as int]);
                }
            }
            return Err(PathError::OutsideRoot);
        }
        i += 1;
        assert(a@.take(i as int) == a@.take(i - 1).push(a@[i - 1]));
        assert(r@.take(i as int) == r@.take(i - 1).push(r@[i - 1]));
    }
    assert(r@.take(n as int) == r@);
    let start: usize = if n > 0 && r[n - 1] != '/' {
        if a.len() == n || a[n] != '/' {
            proof {
                let p = root_prefix(root@);
                if p.is_prefix_of(absolute@) {
                    assert(p[n as int] == absolute@.subrange(0, p.len() as int)[n as int]);
                }
            }
            return Err(PathError::OutsideRoot);
        }
        assert(a@.take(n + 1) == a@.take(n as int).push('/'));
        n + 1
    } else {
        n
    };
    assert(a@.subrange(0, start as int) == root_prefix(root@));
    Ok(string_of(a.as_slice(), start, a.len()))
}

/// The place of the first of `patterns` that matches `path`, if any does.
/// The patterns after it are not tried.
pub fn first_match(path: &str, patterns: &[String]) -> (out: Option<usize>)
    requires
        fits_matcher(path@),
        all_fit_matcher(patterns.deep_view()),
    ensures
        out matches Some(index) ==> is_first_match(path@, patterns.deep_view(), index as int),
        out is None ==> !excluded_by(path@, patterns.deep_view()),
{
    let same = path.to_owned();
    let mut i: usize = 0;
    while i < patterns.len()
        invariant
            i <= patterns@.len(),
            same@ == path@,
            fits_matcher(path@),
            all_fit_matcher(patterns.deep_view()),
            forall|j: int|
                0 <= j < i ==> !pattern_matches(#[trigger] patterns.deep_view()[j], path@),
        decreases patterns@.len() - i,
    {
        assert(patterns.deep_view()[i as int] == patterns@[i as int]@);
        if patterns[i] == same || glob_match(patterns[i].as_str(), path) {
            return Some(i);
        }
        i += 1;
    }
    None
}

/// Whether every one of `patterns` is short enough for the matcher.
pub fn all_fit(patterns: &[String]) -> (out: bool)
    ensures
        out == all_fit_matcher(patterns.deep_view()),
{
    let mut i: usize = 0;
    while i < patterns.len()
        invariant
            i <= patterns@.len(),
            forall|j: int| 0 <= j < i ==> fits_matcher(#[trigger] patterns.deep_view()[j]),
        decreases patterns@.len() - i,
    {
        assert(patterns.deep_view()[i as int] == patterns@[i as int]@);
        if !fits(patterns[i].as_str()) {
            return false;
        }
        i += 1;
    }
    true
}

/// Whether one of `patterns` matches `path`.
///
/// Fails with [`PathError::TooLong`] exactly when the path or one of the
/// patterns is too long for the matcher; nothing is matched then.
pub fn is_excluded(path: &str, patterns: &[String]) -> (out: Result<bool, PathError>)
    ensures
        fits_matcher(path@) && all_fit_matcher(patterns.deep_view()) ==> out == Ok::<
            bool,
            PathError,
        >(excluded_by(path@, patterns.deep_view())),
        !(fits_matcher(path@) && all_fit_matcher(patterns.deep_view())) ==> out == Err::<
            bool,
            PathError,
        >(PathError::TooLong),
{
    if fits(path) && all_fit(patterns) {
        Ok(first_match(path, patterns).is_some())
    } else {
        Err(PathError::TooLong)
    }
}

/// A path that stands among the patterns is excluded, whatever characters
/// it holds and whatever the other patterns are.
pub proof fn lemma_exact_pattern_excludes(path: Seq<char>, patterns: Seq<Seq<char>>, place: int)
    requires
        0 <= place < patterns.len(),
        patterns[place] == path,
    ensures
        excluded_by(path, patterns),
{
}

/// A path is excluded by two lists of patterns put together exactly when
/// one of the two excludes it: patterns that are added take nothing away.
pub proof fn lemma_excluded_by_both(
    path: Seq<char>,
    first: Seq<Seq<char>>,
    second: Seq<Seq<char>>,
)
    ensures
        excluded_by(path, first + second) == (excluded_by(path, first) || excluded_by(
            path,
            second,
        )),
{
    let both = first + second;
    if excluded_by(path, first) {
        let i = choose|i: int| 0 <= i < first.len() && pattern_matches(#[trigger] first[i], path);
        assert(both[i] == first[i]);
    }
    if excluded_by(path, second) {
        let i = choose|i: int| 0 <= i < second.len() && pattern_matches(#[trigger] second[i], path);
        assert(both[first.len() + i] == second[i]);
    }
    if excluded_by(path, both) {
        let i = choose|i: int| 0 <= i < both.len() && pattern_matches(#[trigger] both[i], path);
        if i < first.len() {
            assert(first[i] == both[i]);
        } else {
            assert(second[i - first.len()] == both[i]);
        }
    }
}

/// Joining a relative path to a root and taking the root off again gives
/// the relative path back.
pub proof fn lemma_relativize_resolved(root: Seq<char>, relative: Seq<char>)
    ensures
        is_under(root, resolved(root, relative)),
        relative_part(root, resolved(root, relative)) == relative,
{
    let p = root_prefix(root);
    assert((p + relative).subrange(0, p.len() as int) == p);
    assert((p + relative).skip(p.len() as int) == relative);
}

/// A path under the root is the root joined with its relative part.
pub proof fn lemma_resolved_relative_part(root: Seq<char>, absolute: Seq<char>)
    requires
        is_under(root, absolute),
    ensures
        resolved(root, relative_part(root, absolute)) == absolute,
{
    let p = root_prefix(root);
    assert(absolute.subrange(0, p.len() as int) + absolute.skip(p.len() as int) == absolute);
}

} // verus!
