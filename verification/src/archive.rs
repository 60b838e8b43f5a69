//! Putting one more file into a filesystem archive.
//!
//! The archive is unpacked into a scratch directory, the file is written
//! into the tree, and the tree is packed again into a new archive. Unpacking
//! and packing are done by `cpio`, run through the shell. This module holds
//! the order of the steps, the two command lines, and what counts as a
//! failure; the caller owns the directories and runs the commands.
//!
//! The scratch tree is needed until the new archive is packed and by nobody
//! after that: the caller is asked to discard it on every way out. The
//! directory that holds the new archive is not part of the tree; it has to
//! live for as long as the archive is used, and stays with the caller.

use vstd::prelude::*;
use vstd::string::StringExecFns;

verus! {

/// Why no new archive was made.
#[derive(Debug, PartialEq, Eq)]
pub enum ArchiveError {
    /// Unpacking did not end with exit status zero; the status, if there is
    /// one.
    ExtractFailed(Option<i32>),
    /// Packing did not end with exit status zero; the status, if there is
    /// one.
    RepackFailed(Option<i32>),
    /// A step other than the two commands failed, for the given cause.
    StepFailed(String),
}

/// What the caller is asked to do.
#[derive(Debug, PartialEq, Eq)]
pub enum InjectAction {
    /// Create the scratch directory and choose the place of the new archive.
    Prepare,
    /// Run this command through the shell: it unpacks the archive.
    Extract { command: String },
    /// Write the file into the scratch tree, over what may be there.
    Write,
    /// Run this command through the shell: it packs the new archive.
    Repack { command: String },
    /// Remove the scratch tree.
    Discard,
}

/// What the caller reports.
#[derive(Debug, PartialEq, Eq)]
pub enum InjectReply {
    /// The directories are there: the scratch tree, the archive to unpack by
    /// its absolute path, and the place of the new archive.
    Prepared { scratch: String, source: String, target: String },
    /// The command has run: its exit status, if it has one.
    Exited(Option<i32>),
    /// The step was carried out.
    Done,
    /// The step could not be carried out, for the given cause.
    Failed(String),
}

/// Where an injection stands: what the caller was last asked to do.
pub enum Inject {
    /// Asked to prepare the directories.
    Preparing,
    /// Asked to unpack into `scratch`; the new archive goes to `target`.
    Extracting { scratch: String, target: String },
    /// Asked to write the file.
    Writing { scratch: String, target: String },
    /// Asked to pack.
    Repacking,
    /// Asked to discard the scratch tree, with `result` already settled.
    Discarding { result: Result<(), ArchiveError> },
}

/// How an injection goes on after a reply.
pub enum InjectStep {
    /// It goes on: where it stands now, and what to do next.
    Next(Inject, InjectAction),
    /// It is over.
    Finished(Result<(), ArchiveError>),
}

/// An error as plain values.
pub enum ArchiveErrorView {
    ExtractFailed(Option<i32>),
    RepackFailed(Option<i32>),
    StepFailed(Seq<char>),
}

/// An action as plain values.
pub enum InjectActionView {
    Prepare,
    Extract { command: Seq<char> },
    Write,
    Repack { command: Seq<char> },
    Discard,
}

/// A reply as plain values.
pub enum InjectReplyView {
    Prepared { scratch: Seq<char>, source: Seq<char>, target: Seq<char> },
    Exited(Option<i32>),
    Done,
    Failed(Seq<char>),
}

/// A state as plain values.
pub enum InjectView {
    Preparing,
    Extracting { scratch: Seq<char>, target: Seq<char> },
    Writing { scratch: Seq<char>, target: Seq<char> },
    Repacking,
    Discarding { result: Result<(), ArchiveErrorView> },
}

/// A step as plain values.
pub enum InjectStepView {
    Next(InjectView, InjectActionView),
    Finished(Result<(), ArchiveErrorView>),
}

impl View for ArchiveError {
    type V = ArchiveErrorView;

    open spec fn view(&self) -> ArchiveErrorView {
        match self {
            ArchiveError::ExtractFailed(status) => ArchiveErrorView::ExtractFailed(*status),
            ArchiveError::RepackFailed(status) => ArchiveErrorView::RepackFailed(*status),
            ArchiveError::StepFailed(cause) => ArchiveErrorView::StepFailed(cause@),
        }
    }
}

/// A result as plain values.
pub open spec fn result_view(result: Result<(), ArchiveError>) -> Result<(), ArchiveErrorView> {
    match result {
        Ok(_) => Ok(()),
        Err(e) => Err(e@),
    }
}

impl View for InjectAction {
    type V = InjectActionView;

    open spec fn view(&self) -> InjectActionView {
        match self {
            InjectAction::Prepare => InjectActionView::Prepare,
            InjectAction::Extract { command } => InjectActionView::Extract { command: command@ },
            InjectAction::Write => InjectActionView::Write,
            InjectAction::Repack { command } => InjectActionView::Repack { command: command@ },
            InjectAction::Discard => InjectActionView::Discard,
        }
    }
}

impl View for InjectReply {
    type V = InjectReplyView;

    open spec fn view(&self) -> InjectReplyView {
        match self {
            InjectReply::Prepared { scratch, source, target } => InjectReplyView::Prepared {
                scratch: scratch@,
                source: source@,
                target: target@,
            },
            InjectReply::Exited(status) => InjectReplyView::Exited(*status),
            InjectReply::Done => InjectReplyView::Done,
            InjectReply::Failed(cause) => InjectReplyView::Failed(cause@),
        }
    }
}

impl View for Inject {
    type V = InjectView;

    open spec fn view(&self) -> InjectView {
        match self {
            Inject::Preparing => InjectView::Preparing,
            Inject::Extracting { scratch, target } => InjectView::Extracting {
                scratch: scratch@,
                target: target@,
            },
            Inject::Writing { scratch, target } => InjectView::Writing {
                scratch: scratch@,
                target: target@,
            },
            Inject::Repacking => InjectView::Repacking,
            Inject::Discarding { result } => InjectView::Discarding {
                result: result_view(*result),
            },
        }
    }
}

impl View for InjectStep {
    type V = InjectStepView;

    open spec fn view(&self) -> InjectStepView {
        match self {
            InjectStep::Next(state, action) => InjectStepView::Next(state@, action@),
            InjectStep::Finished(result) => InjectStepView::Finished(result_view(*result)),
        }
    }
}

/// The cause given for a reply that does not answer what was asked.
pub open spec fn unexpected_reply() -> Seq<char> {
    "reply does not answer what was asked"@
}

/// The command that unpacks the archive `source` into the directory
/// `scratch`.
pub open spec fn extract_command(scratch: Seq<char>, source: Seq<char>) -> Seq<char> {
    "cd "@ + scratch + " && cpio -idm < "@ + source + " 2>/dev/null"@
}

/// The command that packs the tree under `scratch` into the archive
/// `target`.
pub open spec fn repack_command(scratch: Seq<char>, target: Seq<char>) -> Seq<char> {
    "cd "@ + scratch + " && find . 2>/dev/null | cpio -o -H newc > "@ + target + " 2>/dev/null"@
}

/// Whether a command has succeeded: it has, when its exit status is zero.
pub open spec fn succeeded(reply: InjectReplyView) -> bool {
    reply == InjectReplyView::Exited(Some(0i32))
}

/// The exit status that a reply to a command holds, if it holds one.
pub open spec fn exit_status(reply: InjectReplyView) -> Option<i32> {
    match reply {
        InjectReplyView::Exited(status) => status,
        _ => None,
    }
}

/// The cause that a reply gives for a step that was not carried out.
pub open spec fn failure_cause(reply: InjectReplyView) -> Seq<char> {
    match reply {
        InjectReplyView::Failed(cause) => cause,
        _ => unexpected_reply(),
    }
}

/// The scratch tree is discarded, and the injection then ends with `result`.
pub open spec fn discard_then(result: Result<(), ArchiveErrorView>) -> InjectStepView {
    InjectStepView::Next(InjectView::Discarding { result }, InjectActionView::Discard)
}

/// How an injection goes on when `reply` answers what was asked in `state`.
///
/// - Asked to prepare: unpacking is next. Without directories there is
///   nothing to discard, and the injection ends with `StepFailed`.
/// - Asked to unpack: the file is written next if the command ended with
///   status zero; any other reply settles `ExtractFailed`.
/// - Asked to write: packing is next; any reply but `Done` settles
///   `StepFailed`.
/// - Asked to pack: status zero settles success; any other reply settles
///   `RepackFailed`.
/// - Once the result is settled the scratch tree is discarded, and the
///   injection ends with that result whatever is reported of the discarding.
pub open spec fn inject_step_spec(state: InjectView, reply: InjectReplyView) -> InjectStepView {
    match state {
        InjectView::Preparing => match reply {
            InjectReplyView::Prepared { scratch, source, target } => InjectStepView::Next(
                InjectView::Extracting { scratch, target },
                InjectActionView::Extract { command: extract_command(scratch, source) },
            ),
            _ => InjectStepView::Finished(Err(ArchiveErrorView::StepFailed(failure_cause(reply)))),
        },
        InjectView::Extracting { scratch, target } => if succeeded(reply) {
            InjectStepView::Next(InjectView::Writing { scratch, target }, InjectActionView::Write)
        } else {
            discard_then(Err(ArchiveErrorView::ExtractFailed(exit_status(reply))))
        },
        InjectView::Writing { scratch, target } => match reply {
            InjectReplyView::Done => InjectStepView::Next(
                InjectView::Repacking,
                InjectActionView::Repack { command: repack_command(scratch, target) },
            ),
            _ => discard_then(Err(ArchiveErrorView::StepFailed(failure_cause(reply)))),
        },
        InjectView::Repacking => if succeeded(reply) {
            discard_then(Ok(()))
        } else {
            discard_then(Err(ArchiveErrorView::RepackFailed(exit_status(reply))))
        },
        InjectView::Discarding { result } => InjectStepView::Finished(result),
    }
}

/// Builds the command that unpacks `source` into `scratch`.
fn build_extract_command(scratch: &str, source: &str) -> (command: String)
    ensures
        command@ == extract_command(scratch@, source@),
{
    let mut command = String::from_str("cd ");
    command.append(scratch);
    command.append(" && cpio -idm < ");
    command.append(source);
    command.append(" 2>/dev/null");
    command
}

/// Builds the command that packs the tree under `scratch` into `target`.
fn build_repack_command(scratch: &str, target: &str) -> (command: String)
    ensures
        command@ == repack_command(scratch@, target@),
{
    let mut command = String::from_str("cd ");
    command.append(scratch);
    command.append(" && find . 2>/dev/null | cpio -o -H newc > ");
    command.append(target);
    command.append(" 2>/dev/null");
    command
}

/// Whether `reply` reports a command that ended with status zero.
fn is_success(reply: &InjectReply) -> (b: bool)
    ensures
        b == succeeded(reply@),
{
    match reply {
        InjectReply::Exited(Some(status)) => *status == 0,
        _ => false,
    }
}

/// The exit status that `reply` holds, if it holds one.
fn status_of(reply: &InjectReply) -> (status: Option<i32>)
    ensures
        status == exit_status(reply@),
{
    match reply {
        InjectReply::Exited(status) => *status,
        _ => None,
    }
}

/// The cause that `reply` gives for a step that was not carried out.
fn cause_of(reply: InjectReply) -> (cause: String)
    ensures
        cause@ == failure_cause(reply@),
{
    match reply {
        InjectReply::Failed(cause) => cause,
        _ => String::from_str("reply does not answer what was asked"),
    }
}

/// Asks for the scratch tree to be discarded before the injection ends.
fn discard(result: Result<(), ArchiveError>) -> (step: InjectStep)
    ensures
        step@ == discard_then(result_view(result)),
{
    InjectStep::Next(Inject::Discarding { result }, InjectAction::Discard)
}

/// Starts an injection: the first thing asked is to prepare the directories.
pub fn inject_begin() -> (start: (Inject, InjectAction))
    ensures
        start.0@ == InjectView::Preparing,
        start.1@ == InjectActionView::Prepare,
{
    (Inject::Preparing, InjectAction::Prepare)
}

/// Decides how an injection goes on when `reply` answers what was asked in
/// `state`.
pub fn inject_step(state: Inject, reply: InjectReply) -> (next: InjectStep)
    ensures
        next@ == inject_step_spec(state@, reply@),
{
    match state {
        Inject::Preparing => match reply {
            InjectReply::Prepared { scratch, source, target } => {
                let command = build_extract_command(scratch.as_str(), source.as_str());
                InjectStep::Next(
                    Inject::Extracting { scratch, target },
                    InjectAction::Extract { command },
                )
            },
            _ => InjectStep::Finished(Err(ArchiveError::StepFailed(cause_of(reply)))),
        },
        Inject::Extracting { scratch, target } => if is_success(&reply) {
            InjectStep::Next(Inject::Writing { scratch, target }, InjectAction::Write)
        } else {
            discard(Err(ArchiveError::ExtractFailed(status_of(&reply))))
        },
        Inject::Writing { scratch, target } => match reply {
            InjectReply::Done => {
                let command = build_repack_command(scratch.as_str(), target.as_str());
                InjectStep::Next(Inject::Repacking, InjectAction::Repack { command })
            },
            _ => discard(Err(ArchiveError::StepFailed(cause_of(reply)))),
        },
        Inject::Repacking => if is_success(&reply) {
            discard(Ok(()))
        } else {
            discard(Err(ArchiveError::RepackFailed(status_of(&reply))))
        },
        Inject::Discarding { result } => InjectStep::Finished(result),
    }
}

/// What an injection has done after a sequence of replies: what it asked
/// for, and how it ended if it has ended.
pub struct InjectRun {
    /// What was asked, in order; the last is still unanswered unless the
    /// injection has ended.
    pub asked: Seq<InjectActionView>,
    /// The result, once the injection has ended.
    pub result: Option<Result<(), ArchiveErrorView>>,
}

/// The injection that stands at `state`, has just asked for `asked`, and is
/// then given `replies`, each reply answering what was asked before it.
/// Replies after the end are not looked at.
pub open spec fn inject_run_from(
    state: InjectView,
    asked: InjectActionView,
    replies: Seq<InjectReplyView>,
) -> InjectRun
    decreases replies.len(),
{
    if replies.len() == 0 {
        InjectRun { asked: seq![asked], result: None }
    } else {
        match inject_step_spec(state, replies[0]) {
            InjectStepView::Next(next, action) => {
                let rest = inject_run_from(next, action, replies.drop_first());
                InjectRun { asked: seq![asked] + rest.asked, result: rest.result }
            },
            InjectStepView::Finished(result) => InjectRun {
                asked: seq![asked],
                result: Some(result),
            },
        }
    }
}

/// An injection from its start.
pub open spec fn inject_run(replies: Seq<InjectReplyView>) -> InjectRun {
    inject_run_from(InjectView::Preparing, InjectActionView::Prepare, replies)
}

/// The replies as the injection reads them one after the other.
proof fn lemma_reply_positions(replies: Seq<InjectReplyView>)
    ensures
        replies.len() > 1 ==> replies.drop_first()[0] == replies[1],
        replies.len() > 2 ==> replies.drop_first().drop_first()[0] == replies[2],
        replies.len() > 3 ==> replies.drop_first().drop_first().drop_first()[0] == replies[3],
        replies.len() > 4 ==> replies.drop_first().drop_first().drop_first().drop_first()[0]
            == replies[4],
{
}

/// The scratch tree is discarded on every way out.
///
/// An injection that has ended after the directories were prepared has
/// asked, as the last thing, for the scratch tree to be discarded: after a
/// failed command and after a failed write as well as after success.
pub proof fn lemma_scratch_discarded(replies: Seq<InjectReplyView>)
    requires
        inject_run(replies).result is Some,
        replies[0] is Prepared,
    ensures
        inject_run(replies).asked.last() == InjectActionView::Discard,
        inject_run(replies).asked.len() >= 3,
{
    reveal_with_fuel(inject_run_from, 6);
    lemma_reply_positions(replies);
}

/// What an injection ends with.
///
/// Once the directories are prepared, the injection succeeds exactly when
/// unpacking ended with status zero, the write was done, and packing ended
/// with status zero. It fails with `ExtractFailed` exactly when unpacking
/// did not end with status zero, and with `RepackFailed` exactly when
/// unpacking and the write went well and packing did not end with status
/// zero; either error holds the status that the command ended with.
pub proof fn lemma_inject_result(replies: Seq<InjectReplyView>)
    requires
        inject_run(replies).result is Some,
        replies[0] is Prepared,
    ensures
        inject_run(replies).result->0 == (if !succeeded(replies[1]) {
            Err::<(), ArchiveErrorView>(ArchiveErrorView::ExtractFailed(exit_status(replies[1])))
        } else if !(replies[2] is Done) {
            Err(ArchiveErrorView::StepFailed(failure_cause(replies[2])))
        } else if !succeeded(replies[3]) {
            Err(ArchiveErrorView::RepackFailed(exit_status(replies[3])))
        } else {
            Ok(())
        }),
{
    reveal_with_fuel(inject_run_from, 6);
    lemma_reply_positions(replies);
}

/// The steps of a successful injection.
///
/// An injection that succeeds has asked for exactly five things: the
/// directories, the unpacking of the archive into the scratch tree, the
/// write, the packing of the tree into the new archive, and the discarding
/// of the tree.
pub proof fn lemma_inject_order(replies: Seq<InjectReplyView>)
    requires
        inject_run(replies).result == Some(Ok::<(), ArchiveErrorView>(())),
    ensures
        replies[0] matches InjectReplyView::Prepared { scratch, source, target }
            && inject_run(replies).asked == seq![
            InjectActionView::Prepare,
            InjectActionView::Extract { command: extract_command(scratch, source) },
            InjectActionView::Write,
            InjectActionView::Repack { command: repack_command(scratch, target) },
            InjectActionView::Discard,
        ],
{
    reveal_with_fuel(inject_run_from, 6);
    lemma_reply_positions(replies);
    if let InjectReplyView::Prepared { scratch, source, target } = replies[0] {
        assert(inject_run(replies).asked =~= seq![
            InjectActionView::Prepare,
            InjectActionView::Extract { command: extract_command(scratch, source) },
            InjectActionView::Write,
            InjectActionView::Repack { command: repack_command(scratch, target) },
            InjectActionView::Discard,
        ]);
    }
}

} // verus!
