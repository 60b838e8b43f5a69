use hyperlight_unikraft::cmdline::decode_header;
use hyperlight_unikraft::harness::begin;
use hyperlight_unikraft::harness::classify;
use hyperlight_unikraft::harness::step;
use hyperlight_unikraft::harness::Action;
use hyperlight_unikraft::harness::HaltOutcome;
use hyperlight_unikraft::harness::Reply;
use hyperlight_unikraft::harness::Request;
use hyperlight_unikraft::harness::RunReport;
use hyperlight_unikraft::harness::Step;
use hyperlight_unikraft::VmConfig;
use hyperlight_unikraft::VmError;
use hyperlight_unikraft::VmOutput;
use std::time::Duration;

/// Feeds `replies` to a run and returns what was asked and the result, if
/// the run has ended.
fn drive(request: Request, replies: Vec<Reply>) -> (Vec<Action>, Option<Result<VmOutput, VmError>>) {
    let (mut state, first) = begin(request);
    let mut asked = vec![first];
    for reply in replies {
        match step(state, reply) {
            Step::Next(next, action) => {
                state = next;
                asked.push(action);
            }
            Step::Finished(result) => return (asked, Some(result)),
        }
    }
    (asked, None)
}

fn exited(report: RunReport, millis: u64, output: &str) -> Reply {
    Reply::GuestExited {
        report,
        evolve_time: Duration::from_millis(millis),
        output: output.to_string(),
    }
}

#[test]
fn missing_kernel_ends_the_run_at_once() {
    let args = vec!["/hello.py".to_string()];
    let request = Request { config: VmConfig::default(), image: None, args: &args, capture: true };
    let (asked, result) = drive(request, vec![Reply::KernelExists(false)]);
    assert_eq!(asked, vec![Action::CheckKernel]);
    assert_eq!(result, Some(Err(VmError::KernelNotFound)));
}

#[test]
fn a_kernel_that_was_not_confirmed_counts_as_missing() {
    for reply in [
        Reply::Failed("stat".to_string()),
        Reply::SandboxCreated(Duration::from_millis(1)),
        exited(RunReport::Halt, 1, ""),
    ] {
        let request = Request { config: VmConfig::default(), image: None, args: &[], capture: false };
        let (asked, result) = drive(request, vec![reply]);
        assert_eq!(asked, vec![Action::CheckKernel]);
        assert_eq!(result, Some(Err(VmError::KernelNotFound)));
    }
}

#[test]
fn halt_is_reported_as_success() {
    let args = vec!["/hello.py".to_string()];
    let request = Request { config: VmConfig::default(), image: None, args: &args, capture: true };
    let (asked, result) = drive(
        request,
        vec![
            Reply::KernelExists(true),
            Reply::SandboxCreated(Duration::from_millis(12)),
            exited(RunReport::Halt, 340, "Hello from the guest\n"),
        ],
    );
    assert_eq!(asked.len(), 3);
    assert_eq!(asked[0], Action::CheckKernel);
    match &asked[1] {
        Action::CreateSandbox { heap_size, stack_size, image } => {
            assert_eq!(*heap_size, 512 * 1024 * 1024);
            assert_eq!(*stack_size, 8 * 1024 * 1024);
            let blob = image.as_ref().unwrap();
            assert_eq!(blob.len(), 4096);
            let header = decode_header(blob).unwrap();
            assert_eq!(header.cmdline, "/hello.py");
            assert_eq!(header.payload_offset, 4096);
        }
        other => panic!("unexpected action {:?}", other),
    }
    assert_eq!(asked[2], Action::RunGuest { capture: true });
    assert_eq!(
        result,
        Some(Ok(VmOutput {
            output: "Hello from the guest\n".to_string(),
            evolve_time: Duration::from_millis(340),
            setup_time: Duration::from_millis(12),
        }))
    );
}

#[test]
fn a_plain_return_is_success_too() {
    let image: Vec<u8> = vec![1, 2, 3];
    let request = Request {
        config: VmConfig::default().with_heap_size(1 << 20).with_stack_size(1 << 16),
        image: Some(&image),
        args: &[],
        capture: false,
    };
    let (asked, result) = drive(
        request,
        vec![
            Reply::KernelExists(true),
            Reply::SandboxCreated(Duration::from_millis(3)),
            exited(RunReport::Returned, 5, ""),
        ],
    );
    assert_eq!(
        asked,
        vec![
            Action::CheckKernel,
            Action::CreateSandbox { heap_size: 1 << 20, stack_size: 1 << 16, image: Some(vec![1, 2, 3]) },
            Action::RunGuest { capture: false },
        ]
    );
    assert_eq!(
        result,
        Some(Ok(VmOutput {
            output: String::new(),
            evolve_time: Duration::from_millis(5),
            setup_time: Duration::from_millis(3),
        }))
    );
}

#[test]
fn nothing_is_handed_to_the_guest_without_image_and_arguments() {
    let request = Request { config: VmConfig::default(), image: None, args: &[], capture: false };
    let (asked, _) = drive(request, vec![Reply::KernelExists(true)]);
    assert_eq!(
        asked[1],
        Action::CreateSandbox {
            heap_size: 512 * 1024 * 1024,
            stack_size: 8 * 1024 * 1024,
            image: None,
        }
    );
}

#[test]
fn sandbox_failure_is_a_setup_failure() {
    let request = Request { config: VmConfig::default(), image: None, args: &[], capture: true };
    let (asked, result) = drive(
        request,
        vec![Reply::KernelExists(true), Reply::Failed("no hypervisor".to_string())],
    );
    assert_eq!(asked.len(), 2);
    assert_eq!(result, Some(Err(VmError::SandboxSetupFailed("no hypervisor".to_string()))));
}

#[test]
fn a_fault_is_an_execution_failure() {
    let request = Request { config: VmConfig::default(), image: None, args: &[], capture: true };
    let (_, result) = drive(
        request,
        vec![
            Reply::KernelExists(true),
            Reply::SandboxCreated(Duration::from_millis(1)),
            exited(RunReport::Fault("configuration refused".to_string()), 0, "partial"),
        ],
    );
    assert_eq!(result, Some(Err(VmError::ExecutionFailed("configuration refused".to_string()))));
}

#[test]
fn a_failure_around_the_run_is_an_execution_failure() {
    let request = Request { config: VmConfig::default(), image: None, args: &[], capture: true };
    let (_, result) = drive(
        request,
        vec![
            Reply::KernelExists(true),
            Reply::SandboxCreated(Duration::from_millis(1)),
            Reply::Failed("pipe".to_string()),
        ],
    );
    assert_eq!(result, Some(Err(VmError::ExecutionFailed("pipe".to_string()))));
}

#[test]
fn replies_that_do_not_fit_are_failures() {
    let request = Request { config: VmConfig::default(), image: None, args: &[], capture: true };
    let (_, result) = drive(request, vec![Reply::KernelExists(true), Reply::KernelExists(true)]);
    assert_eq!(
        result,
        Some(Err(VmError::SandboxSetupFailed("reply does not answer what was asked".to_string())))
    );
    let request = Request { config: VmConfig::default(), image: None, args: &[], capture: true };
    let (_, result) = drive(
        request,
        vec![
            Reply::KernelExists(true),
            Reply::SandboxCreated(Duration::from_millis(1)),
            Reply::SandboxCreated(Duration::from_millis(1)),
        ],
    );
    assert_eq!(
        result,
        Some(Err(VmError::ExecutionFailed("reply does not answer what was asked".to_string())))
    );
}

#[test]
fn a_run_waits_for_its_replies() {
    let request = Request { config: VmConfig::default(), image: None, args: &[], capture: true };
    let (asked, result) = drive(request, vec![]);
    assert_eq!(asked, vec![Action::CheckKernel]);
    assert_eq!(result, None);
}

#[test]
fn reports_are_classified() {
    assert_eq!(classify(RunReport::Returned), HaltOutcome::Completed);
    assert_eq!(classify(RunReport::Halt), HaltOutcome::HaltedAsExpected);
    assert_eq!(
        classify(RunReport::Fault("x".to_string())),
        HaltOutcome::Failed("x".to_string())
    );
}
