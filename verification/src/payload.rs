//! A file handed out by the guest through its diagnostic output.
//!
//! A guest that has produced a file writes it to its output as one line: the
//! marker `PPTX_BASE64:` followed by the file in base64. The host looks for
//! the first line that starts with the marker. Where the output holds no such
//! line, because other text ran into the marker's line, the marker is looked
//! for anywhere; the file then ends at the end of the line or, on a last line
//! without line end, where the text `Kernel` begins.

use base64::Engine;
use vstd::prelude::*;
use vstd::string::StrSliceExecFns;
use vstd::utf8::encode_utf8;
use crate::text::chars_of;
use crate::text::find;
use crate::text::first_occurrence;
use crate::text::slice_chars;
use crate::text::trim;
use crate::text::trim_bounds;

verus! {

/// The error of the crate `base64`, known to the verifier by name only.
#[verifier::external_type_specification]
#[verifier::external_body]
pub struct ExDecodeError(base64::DecodeError);

/// The bytes that `input` stands for in base64 with the standard alphabet
/// and canonical padding, if it is well formed.
pub uninterp spec fn base64_decoded(input: Seq<u8>) -> Option<Seq<u8>>;

/// `Engine::decode` of the crate `base64`, on its engine `STANDARD`.
///
/// Taken on trust: what the engine returns depends on the input bytes alone.
/// Nothing is claimed of which bytes those are, beyond their name.
#[verifier::external_body]
fn base64_decode(input: &[u8]) -> (r: Result<Vec<u8>, base64::DecodeError>)
    ensures
        r matches Ok(bytes) ==> base64_decoded(input@) == Some(bytes@),
        r is Err ==> base64_decoded(input@) is None,
{
    base64::engine::general_purpose::STANDARD.decode(input)
}

/// Why no file came out of an output.
#[derive(Debug, Clone, Copy, PartialEq, Eq)]
pub enum ExtractError {
    /// The output does not hold the marker.
    MarkerNotFound,
    /// What follows the marker is not base64.
    InvalidBase64,
}

/// The marker that precedes the file.
pub open spec fn marker() -> Seq<char> {
    "PPTX_BASE64:"@
}

/// The text at which a last line ends that has no line end.
pub open spec fn trailer() -> Seq<char> {
    "Kernel"@
}

/// The first place at or after `from` where `needle` stands in `text`, or
/// the end of `text`.
pub open spec fn index_or_end(text: Seq<char>, needle: Seq<char>, from: int) -> int {
    match first_occurrence(text, needle, from, false) {
        Some(at) => at,
        None => text.len() as int,
    }
}

/// Where the base64 text stands in `text`: from where to where, before white
/// space is trimmed off.
pub open spec fn payload_span(text: Seq<char>) -> Option<(int, int)> {
    let line_end = seq!['\n'];
    match first_occurrence(text, marker(), 0, true) {
        Some(at) => {
            let from = at + marker().len();
            Some((from, index_or_end(text, line_end, from)))
        },
        None => match first_occurrence(text, marker(), 0, false) {
            Some(at) => {
                let from = at + marker().len();
                Some(
                    (
                        from,
                        match first_occurrence(text, line_end, from, false) {
                            Some(end) => end,
                            None => index_or_end(text, trailer(), from),
                        },
                    ),
                )
            },
            None => None,
        },
    }
}

/// The base64 text that `text` holds, if it holds the marker.
pub open spec fn payload_text(text: Seq<char>) -> Option<Seq<char>> {
    match payload_span(text) {
        Some((from, to)) => Some(trim(text.subrange(from, to))),
        None => None,
    }
}

/// The file that `text` holds.
pub open spec fn extract_spec(text: Seq<char>) -> Result<Seq<u8>, ExtractError> {
    match payload_text(text) {
        None => Err(ExtractError::MarkerNotFound),
        Some(data) => match base64_decoded(encode_utf8(data)) {
            Some(bytes) => Ok(bytes),
            None => Err(ExtractError::InvalidBase64),
        },
    }
}

/// The base64 text that `output` holds after the marker, trimmed.
pub fn find_payload(output: &str) -> (data: Option<&str>)
    ensures
        match payload_text(output@) {
            Some(text) => data matches Some(d) && d@ == text,
            None => data is None,
        },
{
    let text = chars_of(output);
    let marker = chars_of("PPTX_BASE64:");
    let trailer = chars_of("Kernel");
    let mut line_end: Vec<char> = Vec::new();
    line_end.push('\n');
    assert(line_end@ =~= seq!['\n']);
    let n = text.len();
    let (from, to) = match find(&text, &marker, 0, true) {
        Some(at) => {
            let from = at + marker.len();
            let to = match find(&text, &line_end, from, false) {
                Some(end) => end,
                None => n,
            };
            (from, to)
        },
        None => match find(&text, &marker, 0, false) {
            Some(at) => {
                let from = at + marker.len();
                let to = match find(&text, &line_end, from, false) {
                    Some(end) => end,
                    None => match find(&text, &trailer, from, false) {
                        Some(end) => end,
                        None => n,
                    },
                };
                (from, to)
            },
            None => {
                return None;
            },
        },
    };
    assert(payload_span(text@) == Some((from as int, to as int)));
    let part = slice_chars(&text, from, to);
    let (start, end) = trim_bounds(&part);
    assert(part@.subrange(start as int, end as int) =~= text@.subrange(from + start, from + end));
    Some(output.substring_char(from + start, from + end))
}

/// The file that a decoding has given, or the failure that stands for a
/// decoding that has failed.
pub fn file_from_decoding(decoded: Result<Vec<u8>, base64::DecodeError>) -> (r: Result<
    Vec<u8>,
    ExtractError,
>)
    ensures
        match decoded {
            Ok(bytes) => r == Ok::<Vec<u8>, ExtractError>(bytes),
            Err(_) => r == Err::<Vec<u8>, ExtractError>(ExtractError::InvalidBase64),
        },
{
    match decoded {
        Ok(bytes) => Ok(bytes),
        Err(_) => Err(ExtractError::InvalidBase64),
    }
}

/// Extracts the file that a guest has written to `output`.
///
/// Fails with `MarkerNotFound` when the output holds no marker, and with
/// `InvalidBase64` when what follows the first marker that counts is not
/// base64; later markers are not tried.
pub fn extract_pptx_from_output(output: &str) -> (r: Result<Vec<u8>, ExtractError>)
    ensures
        match extract_spec(output@) {
            Ok(bytes) => r matches Ok(v) && v@ == bytes,
            Err(e) => r == Err::<Vec<u8>, ExtractError>(e),
        },
{
    match find_payload(output) {
        None => Err(ExtractError::MarkerNotFound),
        Some(data) => file_from_decoding(base64_decode(data.as_bytes())),
    }
}

} // verus!
