//! Generated code, from the reply of a language model to the script that
//! the guest runs.
//!
//! The reply is meant to be code and nothing else, but it often comes
//! wrapped in a Markdown fence. The fence is taken off when it is complete:
//! an opening fence, with or without the language name, at the start of the
//! trimmed reply, and a closing fence at the very end of what follows it. A
//! reply without a closing fence is kept whole, opening fence included.
//!
//! The clock of the guest starts in 1970, and a ZIP archive cannot hold a
//! date before 1980. The script therefore starts with a patch that makes the
//! `zipfile` module of Python write the year 2024 wherever the date is
//! missing or too early.

use vstd::prelude::*;
use vstd::string::StrSliceExecFns;
use vstd::string::StringExecFns;
use crate::text::chars_of;
use crate::text::ends_with;
use crate::text::ends_with_at;
use crate::text::slice_chars;
use crate::text::starts_with;
use crate::text::starts_with_at;
use crate::text::trim;
use crate::text::trim_bounds;

verus! {

/// What is put in front of the generated code: a patch of `zipfile` for
/// dates before 1980.
pub const ZIPFILE_PATCH: &'static str = "\n# Patch zipfile to handle timestamps before 1980 (required for Unikraft)\nimport zipfile\n_orig_ZipInfo_init = zipfile.ZipInfo.__init__\ndef _patched_ZipInfo_init(self, filename=\"NoName\", date_time=None):\n    if date_time is None or date_time[0] < 1980:\n        date_time = (2024, 1, 1, 0, 0, 0)\n    _orig_ZipInfo_init(self, filename, date_time)\nzipfile.ZipInfo.__init__ = _patched_ZipInfo_init\n\n";

/// The fence that opens or closes a block of code.
pub open spec fn fence() -> Seq<char> {
    "```"@
}

/// The fence that opens a block of Python code.
pub open spec fn python_fence() -> Seq<char> {
    "```python"@
}

/// The reply without its opening fence: what follows the fence in the
/// trimmed reply, or the reply as it came if it opens with no fence.
pub open spec fn after_opening(content: Seq<char>) -> Seq<char> {
    let t = trim(content);
    if starts_with(t, python_fence()) {
        t.skip(python_fence().len() as int)
    } else if starts_with(t, fence()) {
        t.skip(fence().len() as int)
    } else {
        content
    }
}

/// The reply without its fences: what stands between them if the closing
/// fence is there, or the reply as it came if it is not.
pub open spec fn inside_fences(content: Seq<char>) -> Seq<char> {
    let a = after_opening(content);
    if ends_with(a, fence()) {
        a.take(a.len() - fence().len())
    } else {
        content
    }
}

/// The code that a reply holds.
pub open spec fn strip_code_fence_spec(content: Seq<char>) -> Seq<char> {
    trim(inside_fences(content))
}

/// Where the reply stands in `text` once its opening fence is off.
fn opening_bounds(text: &Vec<char>) -> (bounds: (usize, usize))
    ensures
        bounds.0 <= bounds.1 <= text@.len(),
        text@.subrange(bounds.0 as int, bounds.1 as int) == after_opening(text@),
{
    let fence = chars_of("```");
    let python = chars_of("```python");
    let (start, end) = trim_bounds(text);
    let ghost t = text@.subrange(start as int, end as int);
    if starts_with_at(text, &python, start, end) {
        assert(t.skip(python@.len() as int) =~= text@.subrange(start + python@.len(), end as int));
        (start + python.len(), end)
    } else if starts_with_at(text, &fence, start, end) {
        assert(t.skip(fence@.len() as int) =~= text@.subrange(start + fence@.len(), end as int));
        (start + fence.len(), end)
    } else {
        assert(text@.subrange(0, text@.len() as int) =~= text@);
        (0, text.len())
    }
}

/// Where the reply stands in `text` once both fences are off.
fn inside_bounds(text: &Vec<char>) -> (bounds: (usize, usize))
    ensures
        bounds.0 <= bounds.1 <= text@.len(),
        text@.subrange(bounds.0 as int, bounds.1 as int) == inside_fences(text@),
{
    let fence = chars_of("```");
    let (from, to) = opening_bounds(text);
    let ghost a = text@.subrange(from as int, to as int);
    if ends_with_at(text, &fence, from, to) {
        assert(a.take(a.len() - fence@.len()) =~= text@.subrange(from as int, to - fence@.len()));
        (from, to - fence.len())
    } else {
        assert(text@.subrange(0, text@.len() as int) =~= text@);
        (0, text.len())
    }
}

/// Takes the Markdown fence off a reply and trims it.
pub fn strip_code_fence(content: &str) -> (code: String)
    ensures
        code@ == strip_code_fence_spec(content@),
{
    let text = chars_of(content);
    let (from, to) = inside_bounds(&text);
    let part = slice_chars(&text, from, to);
    let (s, e) = trim_bounds(&part);
    assert(part@.subrange(s as int, e as int) =~= text@.subrange(from + s, from + e));
    String::from_str(content.substring_char(from + s, from + e))
}

/// The script that the guest runs for the generated `code`: the patch of
/// `zipfile`, then the code.
pub fn patched_script(code: &str) -> (script: String)
    ensures
        script@ == ZIPFILE_PATCH@ + code@,
{
    let mut script = String::from_str(ZIPFILE_PATCH);
    script.append(code);
    script
}

} // verus!
