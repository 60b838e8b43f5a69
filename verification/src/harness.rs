//! One run of a guest, from the look for the kernel file to the result.
//!
//! The harness decides; the caller acts. The caller is told what to do next
//! (look for the kernel file, create the sandbox, run the guest), does it, and
//! reports what came of it. The harness never touches a file or a sandbox
//! itself, so that every decision it takes is stated and proved here.
//!
//! A unikernel has one way to stop: it halts, and the sandbox reports the
//! halt as an error of the run. The harness takes that report for what it
//! is, the normal end of the guest, and not for a failure.

use core::time::Duration;
use vstd::prelude::*;
use vstd::string::StringExecFns;
use crate::cmdline::args_view;
use crate::cmdline::encode;
use crate::cmdline::image_view;
use crate::cmdline::blob_view;
use crate::cmdline::prepend_cmdline_to_initrd;
use crate::config::VmConfig;

verus! {

/// Why a run did not take place or did not end well.
#[derive(Debug, PartialEq, Eq)]
pub enum VmError {
    /// The kernel file is not there.
    KernelNotFound,
    /// The sandbox could not be created, for the given cause.
    SandboxSetupFailed(String),
    /// The run failed otherwise than by the halt of the guest.
    ExecutionFailed(String),
}

/// What the sandbox reported at the end of a run.
#[derive(Debug, PartialEq, Eq)]
pub enum RunReport {
    /// The run returned without an error.
    Returned,
    /// The run returned the error that stands for the halt of the guest.
    Halt,
    /// The run failed for another cause, such as a configuration that was
    /// refused before the guest was entered.
    Fault(String),
}

/// A run as the harness sees it.
#[derive(Debug, PartialEq, Eq)]
pub enum HaltOutcome {
    /// The guest ran and the sandbox returned.
    Completed,
    /// The guest halted: its one normal way to stop.
    HaltedAsExpected,
    /// The run failed, for the given cause.
    Failed(String),
}

/// The result of a run: what the guest wrote, and how long it took.
#[derive(Debug, PartialEq, Eq)]
pub struct VmOutput {
    /// What the guest wrote to the diagnostic stream while it ran; empty
    /// where the stream was not captured.
    pub output: String,
    /// Time spent running the guest.
    pub evolve_time: Duration,
    /// Time spent creating the sandbox.
    pub setup_time: Duration,
}

/// What a run is asked for.
pub struct Request<'a> {
    /// Memory sizing of the guest.
    pub config: VmConfig,
    /// The filesystem image, if any.
    pub image: Option<&'a [u8]>,
    /// The arguments of the guest.
    pub args: &'a [String],
    /// Whether the diagnostic stream is captured while the guest runs.
    pub capture: bool,
}

/// Where a run stands: what the caller was last asked to do.
pub enum Harness<'a> {
    /// Asked whether the kernel file exists.
    CheckingKernel(Request<'a>),
    /// Asked to create the sandbox.
    CreatingSandbox { capture: bool },
    /// Asked to run the guest in the sandbox that took `setup_time` to create.
    Running { setup_time: Duration },
}

/// What the caller is asked to do.
#[derive(Debug, PartialEq, Eq)]
pub enum Action {
    /// Tell whether the kernel file exists.
    CheckKernel,
    /// Configure a sandbox with these sizes and create it for the kernel and
    /// this blob.
    CreateSandbox { heap_size: u64, stack_size: u64, image: Option<Vec<u8>> },
    /// Run the guest, capturing its diagnostic stream if `capture` is set.
    RunGuest { capture: bool },
}

/// What the caller reports.
#[derive(Debug, PartialEq, Eq)]
pub enum Reply {
    /// Whether the kernel file exists.
    KernelExists(bool),
    /// The sandbox was created, in the given time.
    SandboxCreated(Duration),
    /// The run has ended: what the sandbox reported, how long the run took,
    /// and what was captured of the diagnostic stream.
    GuestExited { report: RunReport, evolve_time: Duration, output: String },
    /// What was asked for could not be done, for the given cause.
    Failed(String),
}

/// How a run goes on after a reply.
pub enum Step<'a> {
    /// The run goes on: where it stands now, and what to do next.
    Next(Harness<'a>, Action),
    /// The run is over.
    Finished(Result<VmOutput, VmError>),
}

/// An error as plain values.
pub enum VmErrorView {
    KernelNotFound,
    SandboxSetupFailed(Seq<char>),
    ExecutionFailed(Seq<char>),
}

/// A report as plain values.
pub enum RunReportView {
    Returned,
    Halt,
    Fault(Seq<char>),
}

/// An outcome as plain values.
pub enum HaltOutcomeView {
    Completed,
    HaltedAsExpected,
    Failed(Seq<char>),
}

/// A result as plain values.
pub struct VmOutputView {
    pub output: Seq<char>,
    pub evolve_time: Duration,
    pub setup_time: Duration,
}

/// A request as plain values.
pub struct RequestView {
    pub heap_size: u64,
    pub stack_size: u64,
    pub image: Option<Seq<u8>>,
    pub args: Seq<Seq<char>>,
    pub capture: bool,
}

/// A state as plain values.
pub enum HarnessView {
    CheckingKernel(RequestView),
    CreatingSandbox { capture: bool },
    Running { setup_time: Duration },
}

/// An action as plain values.
pub enum ActionView {
    CheckKernel,
    CreateSandbox { heap_size: u64, stack_size: u64, image: Option<Seq<u8>> },
    RunGuest { capture: bool },
}

/// A reply as plain values.
pub enum ReplyView {
    KernelExists(bool),
    SandboxCreated(Duration),
    GuestExited { report: RunReportView, evolve_time: Duration, output: Seq<char> },
    Failed(Seq<char>),
}

/// A step as plain values.
pub enum StepView {
    Next(HarnessView, ActionView),
    Finished(Result<VmOutputView, VmErrorView>),
}

impl View for VmError {
    type V = VmErrorView;

    open spec fn view(&self) -> VmErrorView {
        match self {
            VmError::KernelNotFound => VmErrorView::KernelNotFound,
            VmError::SandboxSetupFailed(cause) => VmErrorView::SandboxSetupFailed(cause@),
            VmError::ExecutionFailed(cause) => VmErrorView::ExecutionFailed(cause@),
        }
    }
}

impl View for RunReport {
    type V = RunReportView;

    open spec fn view(&self) -> RunReportView {
        match self {
            RunReport::Returned => RunReportView::Returned,
            RunReport::Halt => RunReportView::Halt,
            RunReport::Fault(cause) => RunReportView::Fault(cause@),
        }
    }
}

impl View for HaltOutcome {
    type V = HaltOutcomeView;

    open spec fn view(&self) -> HaltOutcomeView {
        match self {
            HaltOutcome::Completed => HaltOutcomeView::Completed,
            HaltOutcome::HaltedAsExpected => HaltOutcomeView::HaltedAsExpected,
            HaltOutcome::Failed(cause) => HaltOutcomeView::Failed(cause@),
        }
    }
}

impl View for VmOutput {
    type V = VmOutputView;

    open spec fn view(&self) -> VmOutputView {
        VmOutputView {
            output: self.output@,
            evolve_time: self.evolve_time,
            setup_time: self.setup_time,
        }
    }
}

impl<'a> View for Request<'a> {
    type V = RequestView;

    open spec fn view(&self) -> RequestView {
        RequestView {
            heap_size: self.config.heap_size,
            stack_size: self.config.stack_size,
            image: image_view(self.image),
            args: args_view(self.args),
            capture: self.capture,
        }
    }
}

impl<'a> View for Harness<'a> {
    type V = HarnessView;

    open spec fn view(&self) -> HarnessView {
        match self {
            Harness::CheckingKernel(request) => HarnessView::CheckingKernel(request@),
            Harness::CreatingSandbox { capture } => HarnessView::CreatingSandbox {
                capture: *capture,
            },
            Harness::Running { setup_time } => HarnessView::Running { setup_time: *setup_time },
        }
    }
}

impl View for Action {
    type V = ActionView;

    open spec fn view(&self) -> ActionView {
        match self {
            Action::CheckKernel => ActionView::CheckKernel,
            Action::CreateSandbox { heap_size, stack_size, image } => ActionView::CreateSandbox {
                heap_size: *heap_size,
                stack_size: *stack_size,
                image: blob_view(*image),
            },
            Action::RunGuest { capture } => ActionView::RunGuest { capture: *capture },
        }
    }
}

impl View for Reply {
    type V = ReplyView;

    open spec fn view(&self) -> ReplyView {
        match self {
            Reply::KernelExists(exists) => ReplyView::KernelExists(*exists),
            Reply::SandboxCreated(setup_time) => ReplyView::SandboxCreated(*setup_time),
            Reply::GuestExited { report, evolve_time, output } => ReplyView::GuestExited {
                report: report@,
                evolve_time: *evolve_time,
                output: output@,
            },
            Reply::Failed(cause) => ReplyView::Failed(cause@),
        }
    }
}

impl<'a> View for Step<'a> {
    type V = StepView;

    open spec fn view(&self) -> StepView {
        match self {
            Step::Next(state, action) => StepView::Next(state@, action@),
            Step::Finished(Ok(output)) => StepView::Finished(Ok(output@)),
            Step::Finished(Err(e)) => StepView::Finished(Err(e@)),
        }
    }
}

/// The cause given for a reply that does not answer what was asked.
pub open spec fn unexpected_reply() -> Seq<char> {
    "reply does not answer what was asked"@
}

/// How the harness sees what the sandbox reported: a return and a halt are
/// both the expected end of a guest, and only a fault is a failure.
pub open spec fn classify_spec(report: RunReportView) -> HaltOutcomeView {
    match report {
        RunReportView::Returned => HaltOutcomeView::Completed,
        RunReportView::Halt => HaltOutcomeView::HaltedAsExpected,
        RunReportView::Fault(cause) => HaltOutcomeView::Failed(cause),
    }
}

/// How a run goes on when `reply` answers what was asked in `state`.
///
/// - Asked for the kernel file: the sandbox is created only if the file is
///   reported to exist; the blob for it is the image with the command line
///   in front. Any other reply ends the run with `KernelNotFound`.
/// - Asked for the sandbox: the guest is run once the sandbox is there; a
///   failure ends the run with `SandboxSetupFailed`.
/// - Asked for the run: a return and a halt both end the run with its
///   output; a fault, or a failure around the run, ends it with
///   `ExecutionFailed`.
pub open spec fn step_spec(state: HarnessView, reply: ReplyView) -> StepView {
    match state {
        HarnessView::CheckingKernel(request) => match reply {
            ReplyView::KernelExists(true) => StepView::Next(
                HarnessView::CreatingSandbox { capture: request.capture },
                ActionView::CreateSandbox {
                    heap_size: request.heap_size,
                    stack_size: request.stack_size,
                    image: encode(request.image, request.args),
                },
            ),
            _ => StepView::Finished(Err(VmErrorView::KernelNotFound)),
        },
        HarnessView::CreatingSandbox { capture } => match reply {
            ReplyView::SandboxCreated(setup_time) => StepView::Next(
                HarnessView::Running { setup_time },
                ActionView::RunGuest { capture },
            ),
            ReplyView::Failed(cause) => StepView::Finished(
                Err(VmErrorView::SandboxSetupFailed(cause)),
            ),
            _ => StepView::Finished(Err(VmErrorView::SandboxSetupFailed(unexpected_reply()))),
        },
        HarnessView::Running { setup_time } => match reply {
            ReplyView::GuestExited { report, evolve_time, output } => match classify_spec(report) {
                HaltOutcomeView::Failed(cause) => StepView::Finished(
                    Err(VmErrorView::ExecutionFailed(cause)),
                ),
                _ => StepView::Finished(Ok(VmOutputView { output, evolve_time, setup_time })),
            },
            ReplyView::Failed(cause) => StepView::Finished(
                Err(VmErrorView::ExecutionFailed(cause)),
            ),
            _ => StepView::Finished(Err(VmErrorView::ExecutionFailed(unexpected_reply()))),
        },
    }
}

/// Tells the expected end of a guest from a failure.
pub fn classify(report: RunReport) -> (outcome: HaltOutcome)
    ensures
        outcome@ == classify_spec(report@),
{
    match report {
        RunReport::Returned => HaltOutcome::Completed,
        RunReport::Halt => HaltOutcome::HaltedAsExpected,
        RunReport::Fault(cause) => HaltOutcome::Failed(cause),
    }
}

/// Starts a run: the first thing asked is whether the kernel file exists.
pub fn begin<'a>(request: Request<'a>) -> (start: (Harness<'a>, Action))
    ensures
        start.0@ == HarnessView::CheckingKernel(request@),
        start.1@ == ActionView::CheckKernel,
{
    (Harness::CheckingKernel(request), Action::CheckKernel)
}

/// Decides how a run goes on when `reply` answers what was asked in `state`.
pub fn step<'a>(state: Harness<'a>, reply: Reply) -> (next: Step<'a>)
    ensures
        next@ == step_spec(state@, reply@),
{
    match state {
        Harness::CheckingKernel(request) => match reply {
            Reply::KernelExists(true) => {
                let image = prepend_cmdline_to_initrd(request.image, request.args);
                Step::Next(
                    Harness::CreatingSandbox { capture: request.capture },
                    Action::CreateSandbox {
                        heap_size: request.config.heap_size,
                        stack_size: request.config.stack_size,
                        image,
                    },
                )
            },
            _ => Step::Finished(Err(VmError::KernelNotFound)),
        },
        Harness::CreatingSandbox { capture } => match reply {
            Reply::SandboxCreated(setup_time) => Step::Next(
                Harness::Running { setup_time },
                Action::RunGuest { capture },
            ),
            Reply::Failed(cause) => Step::Finished(Err(VmError::SandboxSetupFailed(cause))),
            _ => Step::Finished(
                Err(
                    VmError::SandboxSetupFailed(
                        String::from_str("reply does not answer what was asked"),
                    ),
                ),
            ),
        },
        Harness::Running { setup_time } => match reply {
            Reply::GuestExited { report, evolve_time, output } => match classify(report) {
                HaltOutcome::Failed(cause) => Step::Finished(Err(VmError::ExecutionFailed(cause))),
                _ => Step::Finished(Ok(VmOutput { output, evolve_time, setup_time })),
            },
            Reply::Failed(cause) => Step::Finished(Err(VmError::ExecutionFailed(cause))),
            _ => Step::Finished(
                Err(
                    VmError::ExecutionFailed(
                        String::from_str("reply does not answer what was asked"),
                    ),
                ),
            ),
        },
    }
}

/// What a run has done after a sequence of replies: what it asked for, and
/// how it ended if it has ended.
pub struct HarnessRun {
    /// What was asked, in order; the last is still unanswered unless the run
    /// has ended.
    pub asked: Seq<ActionView>,
    /// The result, once the run has ended.
    pub result: Option<Result<VmOutputView, VmErrorView>>,
}

/// The run that stands at `state`, has just asked for `asked`, and is then
/// given `replies`, each reply answering what was asked before it. Replies
/// after the end are not looked at.
pub open spec fn run_from(state: HarnessView, asked: ActionView, replies: Seq<ReplyView>) -> HarnessRun
    decreases replies.len(),
{
    if replies.len() == 0 {
        HarnessRun { asked: seq![asked], result: None }
    } else {
        match step_spec(state, replies[0]) {
            StepView::Next(next, action) => {
                let rest = run_from(next, action, replies.drop_first());
                HarnessRun { asked: seq![asked] + rest.asked, result: rest.result }
            },
            StepView::Finished(result) => HarnessRun { asked: seq![asked], result: Some(result) },
        }
    }
}

/// The run for `request` from its start.
pub open spec fn run(request: RequestView, replies: Seq<ReplyView>) -> HarnessRun {
    run_from(HarnessView::CheckingKernel(request), ActionView::CheckKernel, replies)
}

/// The sandbox is left alone when the kernel file is missing.
///
/// Unless the first reply says that the kernel file exists, the run ends
/// with `KernelNotFound`, and nothing but the look for the file was asked.
pub proof fn lemma_kernel_missing(request: RequestView, replies: Seq<ReplyView>)
    requires
        replies.len() > 0,
        replies[0] != ReplyView::KernelExists(true),
    ensures
        run(request, replies).asked == seq![ActionView::CheckKernel],
        run(request, replies).result == Some(
            Err::<VmOutputView, VmErrorView>(VmErrorView::KernelNotFound),
        ),
{
}

/// What is asked, and in which order.
///
/// A run asks for at most three things: the look for the kernel file, then
/// the sandbox, with the sizes of the request and the image framed with its
/// command line, then the run of the guest. Each is asked only after the one
/// before it was reported to have succeeded.
pub proof fn lemma_run_order(request: RequestView, replies: Seq<ReplyView>)
    ensures
        ({
            let asked = run(request, replies).asked;
            &&& 1 <= asked.len() <= 3
            &&& asked[0] == ActionView::CheckKernel
            &&& asked.len() >= 2 ==> replies[0] == ReplyView::KernelExists(true) && asked[1]
                == (ActionView::CreateSandbox {
                heap_size: request.heap_size,
                stack_size: request.stack_size,
                image: encode(request.image, request.args),
            })
            &&& asked.len() == 3 ==> replies[1] is SandboxCreated && asked[2]
                == (ActionView::RunGuest { capture: request.capture })
        }),
{
    reveal_with_fuel(run_from, 4);
    if replies.len() > 0 {
        let r1 = replies.drop_first();
        if r1.len() > 0 {
            assert(r1[0] == replies[1]);
            let r2 = r1.drop_first();
            if r2.len() > 0 {
                assert(r2[0] == replies[2]);
            }
        }
    }
}

/// The halt of the guest is the success of the run.
///
/// When the kernel file exists and the sandbox is created, a run that the
/// sandbox reports as returned or as halted ends with the output that was
/// captured and with the two times that were measured; it never ends with an
/// error.
pub proof fn lemma_halt_is_success(
    request: RequestView,
    setup_time: Duration,
    report: RunReportView,
    evolve_time: Duration,
    output: Seq<char>,
)
    requires
        report is Returned || report is Halt,
    ensures
        run(
            request,
            seq![
                ReplyView::KernelExists(true),
                ReplyView::SandboxCreated(setup_time),
                ReplyView::GuestExited { report, evolve_time, output },
            ],
        ).result == Some(
            Ok::<VmOutputView, VmErrorView>(VmOutputView { output, evolve_time, setup_time }),
        ),
{
    reveal_with_fuel(run_from, 4);
    let replies = seq![
        ReplyView::KernelExists(true),
        ReplyView::SandboxCreated(setup_time),
        ReplyView::GuestExited { report, evolve_time, output },
    ];
    let r1 = replies.drop_first();
    let r2 = r1.drop_first();
    assert(r1[0] == replies[1]);
    assert(r2[0] == replies[2]);
}

/// Every failure has its cause in a reply.
///
/// A run that ends with an error ends so because the kernel file was not
/// reported to exist, because the sandbox was not reported as created, or
/// because the last reply was neither a return nor a halt of the guest.
pub proof fn lemma_errors_have_causes(request: RequestView, replies: Seq<ReplyView>)
    requires
        run(request, replies).result matches Some(Err(_)),
    ensures
        match run(request, replies).result->0->Err_0 {
            VmErrorView::KernelNotFound => replies[0] != ReplyView::KernelExists(true),
            VmErrorView::SandboxSetupFailed(_) => replies.len() >= 2 && !(replies[1]
                is SandboxCreated),
            VmErrorView::ExecutionFailed(_) => replies.len() >= 3 && !(replies[2] matches ReplyView::GuestExited {
                report,
                ..
            } && (report is Returned || report is Halt)),
        },
{
    reveal_with_fuel(run_from, 4);
    let r1 = replies.drop_first();
    if r1.len() > 0 {
        assert(r1[0] == replies[1]);
        let r2 = r1.drop_first();
        if r2.len() > 0 {
            assert(r2[0] == replies[2]);
        }
    }
}

} // verus!
