//! Capturing what a guest writes to the diagnostic stream.
//!
//! The stream of the whole process is swapped for a pipe while the guest
//! runs, and swapped back afterwards whatever the run did. This module holds
//! the order of those steps and the decoding of what the pipe held; the
//! steps themselves are carried out by the caller.

use vstd::prelude::*;
use vstd::utf8::decode_first_scalar;
use vstd::utf8::decode_utf8;
use vstd::utf8::length_of_first_scalar;
use vstd::utf8::pop_first_scalar;
use vstd::utf8::take_first_scalar;
use vstd::utf8::valid_first_scalar;
use vstd::utf8::valid_utf8;
use vstd::string::StringExecFns;
use crate::text::string_from_utf8;

verus! {

/// One step of a capture, carried out by the caller.
#[derive(Debug, Clone, Copy, PartialEq, Eq)]
pub enum CaptureAction {
    /// Duplicate the descriptor of the diagnostic stream, to keep it.
    SaveStream,
    /// Create a pipe.
    OpenPipe,
    /// Put the write end of the pipe in place of the diagnostic stream.
    Redirect,
    /// Run the operation whose output is captured.
    Invoke,
    /// Flush what the diagnostic stream has buffered.
    Flush,
    /// Put the saved descriptor back in place of the diagnostic stream.
    Restore,
    /// Close the write end of the pipe.
    CloseWriter,
    /// Make the read end of the pipe non-blocking.
    SetNonBlocking,
    /// Read from the pipe all that is there now.
    Drain,
}

/// What the caller reports of the step it was asked for.
#[derive(Debug, PartialEq, Eq)]
pub enum CaptureReply {
    /// The step was carried out.
    Done,
    /// The step failed, for the given cause.
    Failed(String),
    /// The bytes that were read from the pipe.
    Drained(Vec<u8>),
}

/// A capture that was given up: the step that failed, and why.
#[derive(Debug, PartialEq, Eq)]
pub struct CaptureError {
    /// The step that failed.
    pub action: CaptureAction,
    /// What the caller reported of it.
    pub cause: String,
}

/// How a capture goes on after a reply.
#[derive(Debug, PartialEq, Eq)]
pub enum CaptureStep {
    /// The step to carry out next.
    Next(CaptureAction),
    /// The capture is over: the captured text, or the failure.
    Finished(Result<String, CaptureError>),
}

/// A reply as plain values.
pub enum CaptureReplyView {
    Done,
    Failed(Seq<char>),
    Drained(Seq<u8>),
}

/// A failure as plain values.
pub struct CaptureErrorView {
    pub action: CaptureAction,
    pub cause: Seq<char>,
}

/// A step as plain values.
pub enum CaptureStepView {
    Next(CaptureAction),
    Finished(Result<Seq<char>, CaptureErrorView>),
}

impl View for CaptureReply {
    type V = CaptureReplyView;

    open spec fn view(&self) -> CaptureReplyView {
        match self {
            CaptureReply::Done => CaptureReplyView::Done,
            CaptureReply::Failed(cause) => CaptureReplyView::Failed(cause@),
            CaptureReply::Drained(bytes) => CaptureReplyView::Drained(bytes@),
        }
    }
}

impl View for CaptureError {
    type V = CaptureErrorView;

    open spec fn view(&self) -> CaptureErrorView {
        CaptureErrorView { action: self.action, cause: self.cause@ }
    }
}

impl View for CaptureStep {
    type V = CaptureStepView;

    open spec fn view(&self) -> CaptureStepView {
        match self {
            CaptureStep::Next(action) => CaptureStepView::Next(*action),
            CaptureStep::Finished(Ok(text)) => CaptureStepView::Finished(Ok(text@)),
            CaptureStep::Finished(Err(e)) => CaptureStepView::Finished(Err(e@)),
        }
    }
}

/// The cause given for a reply that does not answer the step asked for.
pub open spec fn unexpected_reply() -> Seq<char> {
    "reply does not answer the step"@
}

/// The steps of a capture, in the order in which they are asked for.
pub open spec fn protocol() -> Seq<CaptureAction> {
    seq![
        CaptureAction::SaveStream,
        CaptureAction::OpenPipe,
        CaptureAction::Redirect,
        CaptureAction::Invoke,
        CaptureAction::Flush,
        CaptureAction::Restore,
        CaptureAction::CloseWriter,
        CaptureAction::SetNonBlocking,
        CaptureAction::Drain,
    ]
}

/// Goes on to `next` if the step `asked` was carried out, and gives the
/// capture up otherwise.
pub open spec fn proceed_if_done(
    asked: CaptureAction,
    reply: CaptureReplyView,
    next: CaptureAction,
) -> CaptureStepView {
    match reply {
        CaptureReplyView::Done => CaptureStepView::Next(next),
        CaptureReplyView::Failed(cause) => CaptureStepView::Finished(
            Err(CaptureErrorView { action: asked, cause }),
        ),
        CaptureReplyView::Drained(_) => CaptureStepView::Finished(
            Err(CaptureErrorView { action: asked, cause: unexpected_reply() }),
        ),
    }
}

/// How a capture goes on when `reply` answers the step `asked`.
///
/// Saving the stream, opening the pipe and redirecting must succeed, or the
/// capture is given up before the operation runs. Once the operation has been
/// invoked, the stream is flushed and restored whatever was reported of the
/// operation and of the flush. A failure to restore the stream, or to make
/// the pipe non-blocking, gives the capture up. What was read from the pipe
/// is decoded; a failed read counts as no output.
pub open spec fn capture_step_spec(asked: CaptureAction, reply: CaptureReplyView) -> CaptureStepView {
    match asked {
        CaptureAction::SaveStream => proceed_if_done(asked, reply, CaptureAction::OpenPipe),
        CaptureAction::OpenPipe => proceed_if_done(asked, reply, CaptureAction::Redirect),
        CaptureAction::Redirect => proceed_if_done(asked, reply, CaptureAction::Invoke),
        CaptureAction::Invoke => CaptureStepView::Next(CaptureAction::Flush),
        CaptureAction::Flush => CaptureStepView::Next(CaptureAction::Restore),
        CaptureAction::Restore => proceed_if_done(asked, reply, CaptureAction::CloseWriter),
        CaptureAction::CloseWriter => CaptureStepView::Next(CaptureAction::SetNonBlocking),
        CaptureAction::SetNonBlocking => proceed_if_done(asked, reply, CaptureAction::Drain),
        CaptureAction::Drain => CaptureStepView::Finished(
            Ok(
                match reply {
                    CaptureReplyView::Drained(bytes) => decode_lossy(bytes),
                    _ => Seq::empty(),
                },
            ),
        ),
    }
}

/// The text that `bytes` hold, read as UTF-8, with every byte that belongs
/// to no well-formed character left out.
pub open spec fn decode_lossy(bytes: Seq<u8>) -> Seq<char>
    decreases bytes.len(),
{
    if bytes.len() == 0 {
        Seq::empty()
    } else if valid_first_scalar(bytes) {
        seq![decode_first_scalar(bytes) as char] + decode_lossy(pop_first_scalar(bytes))
    } else {
        decode_lossy(bytes.drop_first())
    }
}

/// Valid UTF-8 is decoded in full.
pub proof fn lemma_decode_lossy_of_valid(bytes: Seq<u8>)
    requires
        valid_utf8(bytes),
    ensures
        decode_lossy(bytes) == decode_utf8(bytes),
    decreases bytes.len(),
{
    if bytes.len() > 0 {
        lemma_decode_lossy_of_valid(pop_first_scalar(bytes));
    }
}

/// Decoding distributes over the concatenation of valid UTF-8.
proof fn lemma_decode_concat(a: Seq<u8>, b: Seq<u8>)
    requires
        valid_utf8(a),
        valid_utf8(b),
    ensures
        valid_utf8(a + b),
        decode_utf8(a + b) == decode_utf8(a) + decode_utf8(b),
    decreases a.len(),
{
    vstd::utf8::valid_utf8_concat(a, b);
    if a.len() == 0 {
        assert(a + b =~= b);
        assert(decode_utf8(a) + decode_utf8(b) =~= decode_utf8(b));
    } else {
        let rest = pop_first_scalar(a);
        lemma_decode_concat(rest, b);
        assert(pop_first_scalar(a + b) =~= rest + b);
        assert(decode_first_scalar(a + b) == decode_first_scalar(a));
        assert(decode_utf8(a + b) =~= decode_utf8(a) + decode_utf8(b));
    }
}

/// One well-formed character on its own is valid UTF-8 and decodes to that
/// character.
proof fn lemma_decode_single(bytes: Seq<u8>)
    requires
        valid_first_scalar(bytes),
    ensures
        valid_utf8(take_first_scalar(bytes)),
        decode_utf8(take_first_scalar(bytes)) == seq![decode_first_scalar(bytes) as char],
{
    let piece = take_first_scalar(bytes);
    assert(valid_first_scalar(piece));
    assert(pop_first_scalar(piece) =~= Seq::<u8>::empty());
    assert(valid_utf8(pop_first_scalar(piece)));
    assert(valid_utf8(piece));
    assert(decode_first_scalar(piece) == decode_first_scalar(bytes));
    assert(decode_utf8(pop_first_scalar(piece)) =~= Seq::<char>::empty());
    assert(decode_utf8(piece) =~= seq![decode_first_scalar(bytes) as char]);
}

/// The width in bytes of the well-formed character that starts at `at`, or
/// zero if none starts there.
fn scalar_width(bytes: &[u8], at: usize) -> (width: usize)
    requires
        at < bytes@.len(),
    ensures
        valid_first_scalar(bytes@.skip(at as int)) ==> width == length_of_first_scalar(
            bytes@.skip(at as int),
        ),
        !valid_first_scalar(bytes@.skip(at as int)) ==> width == 0,
        at + width <= bytes@.len(),
{
    let ghost rest = bytes@.skip(at as int);
    let left = bytes.len() - at;
    let b0 = bytes[at];
    assert(rest[0] == b0);
    if b0 <= 0x7f {
        assert((b0 & 0x7f) as u32 <= 0x7f) by (bit_vector);
        1
    } else if 0xc0 <= b0 && b0 <= 0xdf {
        if left < 2 {
            return 0;
        }
        let b1 = bytes[at + 1];
        assert(rest[1] == b1);
        if !(0x80 <= b1 && b1 <= 0xbf) {
            return 0;
        }
        let code: u32 = (((b0 & 0x1f) as u32) << 6) | ((b1 & 0x3f) as u32);
        assert((((b0 & 0x1f) as u32) << 6) | ((b1 & 0x3f) as u32) <= 0x7ff) by (bit_vector);
        if 0x80 <= code {
            2
        } else {
            0
        }
    } else if 0xe0 <= b0 && b0 <= 0xef {
        if left < 3 {
            return 0;
        }
        let b1 = bytes[at + 1];
        let b2 = bytes[at + 2];
        assert(rest[1] == b1 && rest[2] == b2);
        if !(0x80 <= b1 && b1 <= 0xbf && 0x80 <= b2 && b2 <= 0xbf) {
            return 0;
        }
        let code: u32 = (((b0 & 0x0f) as u32) << 12) | (((b1 & 0x3f) as u32) << 6) | ((b2
            & 0x3f) as u32);
        if 0x800 <= code && !(0xd800 <= code && code <= 0xdfff) {
            3
        } else {
            0
        }
    } else if 0xf0 <= b0 && b0 <= 0xf7 {
        if left < 4 {
            return 0;
        }
        let b1 = bytes[at + 1];
        let b2 = bytes[at + 2];
        let b3 = bytes[at + 3];
        assert(rest[1] == b1 && rest[2] == b2 && rest[3] == b3);
        if !(0x80 <= b1 && b1 <= 0xbf && 0x80 <= b2 && b2 <= 0xbf && 0x80 <= b3 && b3 <= 0xbf) {
            return 0;
        }
        let code: u32 = (((b0 & 0x07) as u32) << 18) | (((b1 & 0x3f) as u32) << 12) | (((b2
            & 0x3f) as u32) << 6) | ((b3 & 0x3f) as u32);
        if 0x10000 <= code && code <= 0x10ffff {
            4
        } else {
            0
        }
    } else {
        0
    }
}

/// Decodes captured bytes as UTF-8, leaving out every byte that belongs to
/// no well-formed character. No bytes give the empty text.
pub fn decode_captured(bytes: &[u8]) -> (text: String)
    ensures
        text@ == decode_lossy(bytes@),
{
    let n = bytes.len();
    let mut kept: Vec<u8> = Vec::new();
    let mut i: usize = 0;
    proof {
        assert(bytes@.skip(0) =~= bytes@);
        assert(decode_utf8(kept@) + decode_lossy(bytes@) =~= decode_lossy(bytes@));
    }
    while i < n
        invariant
            i <= n == bytes@.len(),
            valid_utf8(kept@),
            decode_utf8(kept@) + decode_lossy(bytes@.skip(i as int)) == decode_lossy(bytes@),
        decreases n - i,
    {
        let ghost rest = bytes@.skip(i as int);
        let ghost before = kept@;
        let width = scalar_width(bytes, i);
        if width == 0 {
            assert(rest.drop_first() =~= bytes@.skip(i + 1));
            i += 1;
        } else {
            let mut k: usize = 0;
            while k < width
                invariant
                    k <= width,
                    i + width <= n == bytes@.len(),
                    kept@ == before + bytes@.subrange(i as int, i + k),
                decreases width - k,
            {
                kept.push(bytes[i + k]);
                assert(kept@ =~= before + bytes@.subrange(i as int, i + k + 1));
                k += 1;
            }
            proof {
                let piece = take_first_scalar(rest);
                assert(piece =~= bytes@.subrange(i as int, i + width));
                assert(pop_first_scalar(rest) =~= bytes@.skip(i + width));
                lemma_decode_single(rest);
                lemma_decode_concat(before, piece);
                assert(decode_utf8(kept@) + decode_lossy(bytes@.skip(i + width)) =~= decode_utf8(
                    before,
                ) + decode_lossy(rest));
            }
            i += width;
        }
    }
    proof {
        assert(bytes@.skip(n as int) =~= Seq::<u8>::empty());
        assert(decode_utf8(kept@) + Seq::<char>::empty() =~= decode_utf8(kept@));
    }
    match string_from_utf8(kept) {
        Ok(text) => text,
        Err(_) => String::new(),
    }
}

/// The first step of a capture.
pub fn capture_begin() -> (first: CaptureAction)
    ensures
        first == CaptureAction::SaveStream,
{
    CaptureAction::SaveStream
}

/// Goes on to `next` if the step `asked` was carried out.
fn proceed(asked: CaptureAction, reply: CaptureReply, next: CaptureAction) -> (step: CaptureStep)
    ensures
        step@ == proceed_if_done(asked, reply@, next),
{
    match reply {
        CaptureReply::Done => CaptureStep::Next(next),
        CaptureReply::Failed(cause) => CaptureStep::Finished(
            Err(CaptureError { action: asked, cause }),
        ),
        CaptureReply::Drained(_) => CaptureStep::Finished(
            Err(
                CaptureError {
                    action: asked,
                    cause: String::from_str("reply does not answer the step"),
                },
            ),
        ),
    }
}

/// Decides how a capture goes on when `reply` answers the step `asked`.
pub fn capture_step(asked: CaptureAction, reply: CaptureReply) -> (step: CaptureStep)
    ensures
        step@ == capture_step_spec(asked, reply@),
{
    match asked {
        CaptureAction::SaveStream => proceed(asked, reply, CaptureAction::OpenPipe),
        CaptureAction::OpenPipe => proceed(asked, reply, CaptureAction::Redirect),
        CaptureAction::Redirect => proceed(asked, reply, CaptureAction::Invoke),
        CaptureAction::Invoke => CaptureStep::Next(CaptureAction::Flush),
        CaptureAction::Flush => CaptureStep::Next(CaptureAction::Restore),
        CaptureAction::Restore => proceed(asked, reply, CaptureAction::CloseWriter),
        CaptureAction::CloseWriter => CaptureStep::Next(CaptureAction::SetNonBlocking),
        CaptureAction::SetNonBlocking => proceed(asked, reply, CaptureAction::Drain),
        CaptureAction::Drain => {
            let text = match reply {
                CaptureReply::Drained(bytes) => decode_captured(bytes.as_slice()),
                _ => String::new(),
            };
            CaptureStep::Finished(Ok(text))
        },
    }
}

/// What a capture has done after a sequence of replies: the steps it asked
/// for, and how it ended if it has ended.
pub struct CaptureRun {
    /// The steps asked for, in order; the last is still unanswered unless the
    /// capture has ended.
    pub asked: Seq<CaptureAction>,
    /// The captured text or the failure, once the capture has ended.
    pub result: Option<Result<Seq<char>, CaptureErrorView>>,
}

/// The capture that has asked for `asked` and is then given `replies`, each
/// reply answering the step asked for before it. Replies after the end are
/// not looked at.
pub open spec fn capture_run_from(asked: CaptureAction, replies: Seq<CaptureReplyView>) -> CaptureRun
    decreases replies.len(),
{
    if replies.len() == 0 {
        CaptureRun { asked: seq![asked], result: None }
    } else {
        match capture_step_spec(asked, replies[0]) {
            CaptureStepView::Next(next) => {
                let rest = capture_run_from(next, replies.drop_first());
                CaptureRun { asked: seq![asked] + rest.asked, result: rest.result }
            },
            CaptureStepView::Finished(result) => CaptureRun {
                asked: seq![asked],
                result: Some(result),
            },
        }
    }
}

/// A capture from its first step on.
pub open spec fn capture_run(replies: Seq<CaptureReplyView>) -> CaptureRun {
    capture_run_from(CaptureAction::SaveStream, replies)
}

/// The shape of a capture that starts at step `k` of the protocol.
proof fn lemma_run_shape(k: int, replies: Seq<CaptureReplyView>)
    requires
        0 <= k < 9,
    ensures
        ({
            let run = capture_run_from(protocol()[k], replies);
            let n = run.asked.len() as int;
            &&& 1 <= n <= replies.len() + 1
            &&& k + n <= 9
            &&& run.asked == protocol().subrange(k, k + n)
            &&& run.result is None ==> n == replies.len() + 1
            &&& run.result is Some && k <= 5 && k + n > 3 ==> k + n >= 6
            &&& run.result matches Some(Ok(_)) ==> k + n == 9
            &&& run.result matches Some(Err(e)) ==> e.action == protocol()[k + n - 1]
        }),
    decreases replies.len(),
{
    let asked = protocol()[k];
    let run = capture_run_from(asked, replies);
    assert(protocol().len() == 9);
    assert(protocol()[0] == CaptureAction::SaveStream && protocol()[1] == CaptureAction::OpenPipe
        && protocol()[2] == CaptureAction::Redirect && protocol()[3] == CaptureAction::Invoke
        && protocol()[4] == CaptureAction::Flush && protocol()[5] == CaptureAction::Restore
        && protocol()[6] == CaptureAction::CloseWriter && protocol()[7]
        == CaptureAction::SetNonBlocking && protocol()[8] == CaptureAction::Drain);
    if replies.len() == 0 {
        assert(run.asked =~= protocol().subrange(k, k + 1));
    } else {
        match capture_step_spec(asked, replies[0]) {
            CaptureStepView::Next(next) => {
                assert(k < 8);
                assert(next == protocol()[k + 1]);
                lemma_run_shape(k + 1, replies.drop_first());
                let rest = capture_run_from(next, replies.drop_first());
                let m = rest.asked.len() as int;
                assert(run.asked =~= protocol().subrange(k, k + 1 + m));
            },
            CaptureStepView::Finished(result) => {
                assert(run.asked =~= protocol().subrange(k, k + 1));
            },
        }
    }
}

/// The steps of a capture are asked for in the order of the protocol, none
/// left out and none twice.
pub proof fn lemma_capture_follows_protocol(replies: Seq<CaptureReplyView>)
    ensures
        capture_run(replies).asked.len() <= 9,
        capture_run(replies).asked == protocol().take(capture_run(replies).asked.len() as int),
{
    lemma_run_shape(0, replies);
}

/// The stream is restored on every way out.
///
/// Whenever a capture has ended after it asked for the operation to be
/// invoked, it has asked for the stream to be restored since: whatever was
/// reported of the operation, of the flush or of any later step.
pub proof fn lemma_stream_restored(replies: Seq<CaptureReplyView>)
    requires
        capture_run(replies).result is Some,
        capture_run(replies).asked.contains(CaptureAction::Invoke),
    ensures
        capture_run(replies).asked.len() >= 6,
        capture_run(replies).asked[3] == CaptureAction::Invoke,
        capture_run(replies).asked[5] == CaptureAction::Restore,
{
    lemma_run_shape(0, replies);
    let run = capture_run(replies);
    let i = choose|i: int| 0 <= i < run.asked.len() && run.asked[i] == CaptureAction::Invoke;
    assert(run.asked[i] == protocol()[i]);
    assert(i == 3);
}

/// A capture ends with a text only after every step of the protocol.
pub proof fn lemma_text_after_all_steps(replies: Seq<CaptureReplyView>)
    requires
        capture_run(replies).result matches Some(Ok(_)),
    ensures
        capture_run(replies).asked == protocol(),
{
    lemma_run_shape(0, replies);
    assert(protocol().subrange(0, 9) =~= protocol());
}

/// What was written is what is captured.
///
/// When the six steps that must succeed are reported as done, the capture
/// ends with the text that the drained bytes hold, whatever was reported of
/// the operation itself, of the flush and of closing the pipe; and bytes
/// that are valid UTF-8 are captured in full.
pub proof fn lemma_capture_verbatim(replies: Seq<CaptureReplyView>, bytes: Seq<u8>)
    requires
        replies.len() == 9,
        replies[0] is Done,
        replies[1] is Done,
        replies[2] is Done,
        replies[5] is Done,
        replies[7] is Done,
        replies[8] == CaptureReplyView::Drained(bytes),
    ensures
        capture_run(replies).result == Some(
            Ok::<Seq<char>, CaptureErrorView>(decode_lossy(bytes)),
        ),
        capture_run(replies).asked == protocol(),
        valid_utf8(bytes) ==> decode_lossy(bytes) == decode_utf8(bytes),
{
    let r1 = replies.drop_first();
    let r2 = r1.drop_first();
    let r3 = r2.drop_first();
    let r4 = r3.drop_first();
    let r5 = r4.drop_first();
    let r6 = r5.drop_first();
    let r7 = r6.drop_first();
    let r8 = r7.drop_first();
    assert(r1[0] == replies[1] && r2[0] == replies[2] && r3[0] == replies[3] && r4[0]
        == replies[4] && r5[0] == replies[5] && r6[0] == replies[6] && r7[0] == replies[7]
        && r8[0] == replies[8]);
    let run8 = capture_run_from(CaptureAction::Drain, r8);
    assert(run8.result == Some(Ok::<Seq<char>, CaptureErrorView>(decode_lossy(bytes))));
    let run7 = capture_run_from(CaptureAction::SetNonBlocking, r7);
    assert(run7.result == run8.result);
    let run6 = capture_run_from(CaptureAction::CloseWriter, r6);
    assert(run6.result == run8.result);
    let run5 = capture_run_from(CaptureAction::Restore, r5);
    assert(run5.result == run8.result);
    let run4 = capture_run_from(CaptureAction::Flush, r4);
    assert(run4.result == run8.result);
    let run3 = capture_run_from(CaptureAction::Invoke, r3);
    assert(run3.result == run8.result);
    let run2 = capture_run_from(CaptureAction::Redirect, r2);
    assert(run2.result == run8.result);
    let run1 = capture_run_from(CaptureAction::OpenPipe, r1);
    assert(run1.result == run8.result);
    assert(capture_run(replies).result == run8.result);
    lemma_text_after_all_steps(replies);
    if valid_utf8(bytes) {
        lemma_decode_lossy_of_valid(bytes);
    }
}

} // verus!
