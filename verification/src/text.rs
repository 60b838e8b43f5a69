//! Characters and bytes: what the parsers of this crate share.

use vstd::prelude::*;
use vstd::utf8::decode_utf8;
use vstd::utf8::valid_utf8;

verus! {

/// The error of `String::from_utf8`, known to the verifier by name only.
#[verifier::external_type_specification]
#[verifier::external_body]
pub struct ExFromUtf8Error(std::string::FromUtf8Error);

/// `String::from_utf8` of the standard library.
///
/// Taken on trust: the call succeeds exactly when the bytes are valid UTF-8,
/// and the string then holds the characters that the bytes encode.
#[verifier::external_body]
pub(crate) fn string_from_utf8(bytes: Vec<u8>) -> (r: Result<String, std::string::FromUtf8Error>)
    ensures
        r is Ok <==> valid_utf8(bytes@),
        r matches Ok(s) ==> s@ == decode_utf8(bytes@),
{
    String::from_utf8(bytes)
}

/// The characters of `s`, in order.
pub(crate) fn chars_of(s: &str) -> (v: Vec<char>)
    ensures
        v@ == s@,
{
    let mut v: Vec<char> = Vec::new();
    for c in it: s.chars()
        invariant
            it.seq() == s@,
            v@ == s@.take(it.index() as int),
    {
        v.push(c);
        assert(s@.take(it.index() + 1) =~= s@.take(it.index() as int).push(c));
    }
    assert(s@.take(s@.len() as int) =~= s@);
    v
}

/// White space as Unicode defines it: the characters with the property
/// `White_Space`.
pub open spec fn is_whitespace(c: char) -> bool {
    ||| ('\u{9}' <= c && c <= '\u{d}')
    ||| c == ' '
    ||| c == '\u{85}'
    ||| c == '\u{a0}'
    ||| c == '\u{1680}'
    ||| ('\u{2000}' <= c && c <= '\u{200a}')
    ||| c == '\u{2028}'
    ||| c == '\u{2029}'
    ||| c == '\u{202f}'
    ||| c == '\u{205f}'
    ||| c == '\u{3000}'
}

/// Whether `c` is white space.
pub(crate) fn is_whitespace_char(c: char) -> (b: bool)
    ensures
        b == is_whitespace(c),
{
    ('\u{9}' <= c && c <= '\u{d}') || c == ' ' || c == '\u{85}' || c == '\u{a0}' || c
        == '\u{1680}' || ('\u{2000}' <= c && c <= '\u{200a}') || c == '\u{2028}' || c
        == '\u{2029}' || c == '\u{202f}' || c == '\u{205f}' || c == '\u{3000}'
}

/// How many characters of white space `s` starts with.
pub open spec fn leading_whitespace(s: Seq<char>) -> nat
    decreases s.len(),
{
    if s.len() > 0 && is_whitespace(s[0]) {
        1 + leading_whitespace(s.drop_first())
    } else {
        0
    }
}

/// `s` without the white space at its start.
pub open spec fn trim_start(s: Seq<char>) -> Seq<char> {
    s.skip(leading_whitespace(s) as int)
}

/// `s` without the white space at its end.
pub open spec fn trim_end(s: Seq<char>) -> Seq<char>
    decreases s.len(),
{
    if s.len() > 0 && is_whitespace(s.last()) {
        trim_end(s.drop_last())
    } else {
        s
    }
}

/// `s` without the white space at its start and at its end.
pub open spec fn trim(s: Seq<char>) -> Seq<char> {
    trim_end(trim_start(s))
}

/// Whether `s` ends with `suffix`.
pub open spec fn ends_with(s: Seq<char>, suffix: Seq<char>) -> bool {
    s.len() >= suffix.len() && s.skip(s.len() - suffix.len()) == suffix
}

/// Whether `s` starts with `prefix`.
pub open spec fn starts_with(s: Seq<char>, prefix: Seq<char>) -> bool {
    s.len() >= prefix.len() && s.take(prefix.len() as int) == prefix
}

/// The part of `s` that trimming keeps: `s` from `start` up to `end`.
pub(crate) fn trim_bounds(s: &Vec<char>) -> (bounds: (usize, usize))
    ensures
        bounds.0 <= bounds.1 <= s@.len(),
        s@.subrange(bounds.0 as int, bounds.1 as int) == trim(s@),
        bounds.0 == leading_whitespace(s@),
{
    let n = s.len();
    let mut start: usize = 0;
    assert(s@.skip(0) =~= s@);
    while start < n && is_whitespace_char(s[start])
        invariant
            start <= n == s@.len(),
            leading_whitespace(s@) == start + leading_whitespace(s@.skip(start as int)),
        decreases n - start,
    {
        proof {
            let rest = s@.skip(start as int);
            assert(rest[0] == s@[start as int]);
            assert(rest.drop_first() =~= s@.skip(start + 1));
        }
        start += 1;
    }
    proof {
        let rest = s@.skip(start as int);
        if start < n {
            assert(rest[0] == s@[start as int]);
        }
        assert(leading_whitespace(rest) == 0);
    }
    let ghost kept = s@.skip(start as int);
    let mut end: usize = n;
    assert(kept.take(n - start) =~= kept);
    while end > start && is_whitespace_char(s[end - 1])
        invariant
            start <= end <= n == s@.len(),
            kept == s@.skip(start as int),
            trim_end(kept) == trim_end(kept.take(end - start)),
        decreases end,
    {
        proof {
            let part = kept.take(end - start);
            assert(part.last() == s@[end - 1]);
            assert(part.drop_last() =~= kept.take(end - 1 - start));
        }
        end -= 1;
    }
    proof {
        let part = kept.take(end - start);
        if end > start {
            assert(part.last() == s@[end - 1]);
        }
        assert(trim_end(part) == part);
        assert(part =~= s@.subrange(start as int, end as int));
    }
    (start, end)
}

/// Whether `needle` stands in `text` at `at`.
pub open spec fn occurs_at(text: Seq<char>, needle: Seq<char>, at: int) -> bool {
    0 <= at && at + needle.len() <= text.len() && text.subrange(at, at + needle.len()) == needle
}

/// Whether a line of `text` starts at `at`.
pub open spec fn at_line_start(text: Seq<char>, at: int) -> bool {
    at == 0 || (0 < at <= text.len() && text[at - 1] == '\n')
}

/// The first place at or after `from` where `needle` stands in `text`; with
/// `lines_only`, the first such place at which a line starts.
pub open spec fn first_occurrence(
    text: Seq<char>,
    needle: Seq<char>,
    from: int,
    lines_only: bool,
) -> Option<int>
    decreases text.len() + 1 - from,
{
    if from < 0 || from + needle.len() > text.len() {
        None
    } else if occurs_at(text, needle, from) && (!lines_only || at_line_start(text, from)) {
        Some(from)
    } else {
        first_occurrence(text, needle, from + 1, lines_only)
    }
}

/// Whether `needle` stands in `text` at `at`.
pub(crate) fn occurs(text: &Vec<char>, needle: &Vec<char>, at: usize) -> (b: bool)
    requires
        at + needle@.len() <= text@.len(),
    ensures
        b == occurs_at(text@, needle@, at as int),
{
    let m = needle.len();
    let n = text.len();
    let mut k: usize = 0;
    while k < m
        invariant
            k <= m == needle@.len(),
            at + m <= n == text@.len(),
            forall|j: int| 0 <= j < k ==> text@[at + j] == needle@[j],
        decreases m - k,
    {
        if text[at + k] != needle[k] {
            assert(text@.subrange(at as int, at + m)[k as int] == text@[at + k]);
            return false;
        }
        k += 1;
    }
    assert(text@.subrange(at as int, at + m) =~= needle@);
    true
}

/// Looks for `needle` in `text` at or after `from`.
pub(crate) fn find(
    text: &Vec<char>,
    needle: &Vec<char>,
    from: usize,
    lines_only: bool,
) -> (found: Option<usize>)
    ensures
        match first_occurrence(text@, needle@, from as int, lines_only) {
            Some(at) => found == Some(at as usize) && from <= at && at + needle@.len()
                <= text@.len(),
            None => found is None,
        },
{
    let n = text.len();
    let m = needle.len();
    if m > n || from > n - m {
        return None;
    }
    let last = n - m;
    let mut i = from;
    loop
        invariant
            from <= i <= last,
            last + m == n == text@.len(),
            m == needle@.len(),
            first_occurrence(text@, needle@, from as int, lines_only) == first_occurrence(
                text@,
                needle@,
                i as int,
                lines_only,
            ),
        decreases last - i,
    {
        if (!lines_only || i == 0 || text[i - 1] == '\n') && occurs(text, needle, i) {
            return Some(i);
        }
        if i == last {
            assert(first_occurrence(text@, needle@, i + 1, lines_only) is None);
            return None;
        }
        i += 1;
    }
}

/// The characters of `text` from `from` up to `to`.
pub(crate) fn slice_chars(text: &Vec<char>, from: usize, to: usize) -> (part: Vec<char>)
    requires
        from <= to <= text@.len(),
    ensures
        part@ == text@.subrange(from as int, to as int),
{
    let mut part: Vec<char> = Vec::new();
    let mut i = from;
    while i < to
        invariant
            from <= i <= to <= text@.len(),
            part@ == text@.subrange(from as int, i as int),
        decreases to - i,
    {
        part.push(text[i]);
        assert(part@ =~= text@.subrange(from as int, i + 1));
        i += 1;
    }
    part
}

/// Whether the part of `text` from `from` up to `to` starts with `needle`.
pub(crate) fn starts_with_at(
    text: &Vec<char>,
    needle: &Vec<char>,
    from: usize,
    to: usize,
) -> (b: bool)
    requires
        from <= to <= text@.len(),
    ensures
        b == starts_with(text@.subrange(from as int, to as int), needle@),
{
    let m = needle.len();
    if m > to - from {
        return false;
    }
    assert(text@.subrange(from as int, to as int).take(m as int) =~= text@.subrange(
        from as int,
        from + m,
    ));
    occurs(text, needle, from)
}

/// Whether the part of `text` from `from` up to `to` ends with `needle`.
pub(crate) fn ends_with_at(
    text: &Vec<char>,
    needle: &Vec<char>,
    from: usize,
    to: usize,
) -> (b: bool)
    requires
        from <= to <= text@.len(),
    ensures
        b == ends_with(text@.subrange(from as int, to as int), needle@),
{
    let m = needle.len();
    if m > to - from {
        return false;
    }
    assert(text@.subrange(from as int, to as int).skip(to - from - m) =~= text@.subrange(
        to - m,
        to as int,
    ));
    occurs(text, needle, to - m)
}

} // verus!
