use hyperlight_unikraft::capture::capture_begin;
use hyperlight_unikraft::capture::capture_step;
use hyperlight_unikraft::capture::CaptureAction;
use hyperlight_unikraft::capture::CaptureError;
use hyperlight_unikraft::capture::CaptureReply;
use hyperlight_unikraft::capture::CaptureStep;
use std::io::Write;
use std::sync::Mutex;

/// The diagnostic stream belongs to the whole process: one capture at a time.
static STREAM: Mutex<()> = Mutex::new(());

/// Which file a descriptor refers to.
fn identity(fd: i32) -> (u64, u64) {
    let stat = nix::sys::stat::fstat(fd).unwrap();
    (stat.st_dev as u64, stat.st_ino as u64)
}

/// A pipe by its two descriptors: a named pipe, so that both ends are plain
/// numbers. The read end starts out blocking, as that of any new pipe.
fn open_pipe() -> Result<(i32, i32), nix::Error> {
    let dir = tempfile::tempdir().map_err(|_| nix::Error::EIO)?;
    let path = dir.path().join("capture");
    nix::unistd::mkfifo(&path, nix::sys::stat::Mode::S_IRWXU)?;
    let none = nix::sys::stat::Mode::empty();
    let read_end = nix::fcntl::open(
        &path,
        nix::fcntl::OFlag::O_RDONLY | nix::fcntl::OFlag::O_NONBLOCK,
        none,
    )?;
    let write_end = nix::fcntl::open(&path, nix::fcntl::OFlag::O_WRONLY, none)?;
    nix::fcntl::fcntl(read_end, nix::fcntl::FcntlArg::F_SETFL(nix::fcntl::OFlag::O_RDONLY))?;
    Ok((read_end, write_end))
}

fn reply<T>(result: Result<T, nix::Error>) -> CaptureReply {
    match result {
        Ok(_) => CaptureReply::Done,
        Err(e) => CaptureReply::Failed(e.to_string()),
    }
}

/// Carries a capture out on the real descriptors of this process. Returns
/// what `run` returned, where the stream pointed while `run` ran, and the
/// result of the capture.
fn capture<T>(run: impl FnOnce() -> T) -> (Option<T>, Option<(u64, u64)>, Result<String, CaptureError>) {
    let mut run = Some(run);
    let mut outcome = None;
    let mut during = None;
    let mut saved = -1;
    let mut read_end = -1;
    let mut write_end = -1;
    let mut action = capture_begin();
    loop {
        let answer = match action {
            CaptureAction::SaveStream => match nix::unistd::dup(2) {
                Ok(fd) => {
                    saved = fd;
                    CaptureReply::Done
                }
                Err(e) => CaptureReply::Failed(e.to_string()),
            },
            CaptureAction::OpenPipe => match open_pipe() {
                Ok(ends) => {
                    read_end = ends.0;
                    write_end = ends.1;
                    CaptureReply::Done
                }
                Err(e) => CaptureReply::Failed(e.to_string()),
            },
            CaptureAction::Redirect => reply(nix::unistd::dup2(write_end, 2)),
            CaptureAction::Invoke => {
                during = Some(identity(2));
                outcome = Some((run.take().unwrap())());
                CaptureReply::Done
            }
            CaptureAction::Flush => match std::io::stderr().flush() {
                Ok(_) => CaptureReply::Done,
                Err(e) => CaptureReply::Failed(e.to_string()),
            },
            CaptureAction::Restore => {
                let answer = reply(nix::unistd::dup2(saved, 2));
                let _ = nix::unistd::close(saved);
                answer
            }
            CaptureAction::CloseWriter => reply(nix::unistd::close(write_end)),
            CaptureAction::SetNonBlocking => {
                let fd = read_end;
                reply(nix::fcntl::fcntl(fd, nix::fcntl::FcntlArg::F_GETFL).and_then(|flags| {
                    nix::fcntl::fcntl(
                        fd,
                        nix::fcntl::FcntlArg::F_SETFL(
                            nix::fcntl::OFlag::from_bits_truncate(flags)
                                | nix::fcntl::OFlag::O_NONBLOCK,
                        ),
                    )
                }))
            }
            CaptureAction::Drain => {
                let mut bytes = Vec::new();
                let mut chunk = [0u8; 256];
                loop {
                    match nix::unistd::read(read_end, &mut chunk) {
                        Ok(0) => break,
                        Ok(n) => bytes.extend_from_slice(&chunk[..n]),
                        Err(_) => break,
                    }
                }
                let _ = nix::unistd::close(read_end);
                CaptureReply::Drained(bytes)
            }
        };
        match capture_step(action, answer) {
            CaptureStep::Next(next) => action = next,
            CaptureStep::Finished(result) => return (outcome, during, result),
        }
    }
}

#[test]
fn written_lines_come_back_and_the_stream_is_usable_again() {
    let _guard = STREAM.lock().unwrap_or_else(|e| e.into_inner());
    let before = identity(2);
    let (outcome, during, result) = capture(|| {
        std::io::stderr().write_all(b"line1\nline2\n").unwrap();
        7
    });
    assert_eq!(outcome, Some(7));
    assert_eq!(result, Ok("line1\nline2\n".to_string()));
    assert_ne!(during, Some(before));
    assert_eq!(identity(2), before);
    assert!(std::io::stderr().write_all(b"").is_ok());
}

#[test]
fn partial_output_of_a_failed_run_comes_back_and_the_stream_is_restored() {
    let _guard = STREAM.lock().unwrap_or_else(|e| e.into_inner());
    let before = identity(2);
    let (outcome, during, result) = capture(|| {
        std::io::stderr().write_all(b"partial").unwrap();
        Err::<(), String>("guest fault".to_string())
    });
    assert_eq!(outcome, Some(Err("guest fault".to_string())));
    assert!(result.unwrap().contains("partial"));
    assert_ne!(during, Some(before));
    assert_eq!(identity(2), before);
}

#[test]
fn a_silent_run_gives_the_empty_text_without_waiting() {
    let _guard = STREAM.lock().unwrap_or_else(|e| e.into_inner());
    let before = identity(2);
    let (_, _, result) = capture(|| ());
    assert_eq!(result, Ok(String::new()));
    assert_eq!(identity(2), before);
}
