use starbase_process::blocking_capture::{
    account_read, capture_deadline, input_written, reader_outcome, wait_step, writer_outcome,
    written_after, CaptureOptions as BlockingOptions, CapturedOutput, WaitStep,
};
use starbase_process::capture_pipes::{
    finish_drained, output_result, poll_step, read_size, validate_runtime_context, CaptureOptions, CapturedPipes,
    PollStep, RuntimeFlavor,
};
use starbase_process::error::{CaptureError, IoError, IoErrorKind, ProcessError};
use starbase_process::signal::ChildExit;
use starbase_process::supervision::{append_within_limit, needs_cleanup, read_stream, run_result, RunEnd};

fn io_error(kind: IoErrorKind, message: &str) -> IoError {
    IoError { kind, raw_os_error: None, message: message.to_owned() }
}

#[test]
fn rejects_active_registry_from_current_thread_runtime() {
    let error = validate_runtime_context("test", true, Some(RuntimeFlavor::CurrentThread)).unwrap_err();

    assert!(matches!(
        error,
        ProcessError::UnsupportedCaptureRuntime { ref bin } if bin == "test"
    ));
}

#[test]
fn allows_capture_from_other_runtime_contexts() {
    assert!(validate_runtime_context("test", true, Some(RuntimeFlavor::MultiThread)).is_ok());
    assert!(validate_runtime_context("test", true, None).is_ok());
    assert!(validate_runtime_context("test", false, Some(RuntimeFlavor::CurrentThread)).is_ok());
}

#[test]
fn capture_options_default_drains_for_one_second() {
    let options = CaptureOptions::default();
    assert_eq!(options.output_limit, None);
    assert_eq!(options.timeout, None);
    assert_eq!(options.output_drain_timeout, Some(1000));
}

#[test]
fn pipes_keep_only_the_budget_and_report_going_over() {
    let mut pipes = CapturedPipes::new(true, true, Some(5));
    assert!(!pipes.accept(true, Some(b"abc")));
    assert_eq!(pipes.remaining(), 2);
    assert!(pipes.accept(false, Some(b"defg")));
    assert_eq!(pipes.remaining(), 0);
    assert!(!pipes.finished());
    assert!(!pipes.accept(true, None));
    assert!(!pipes.accept(false, None));
    assert!(pipes.finished());
    assert!(pipes.kept_within_budget());
    let output = pipes.take_output(ChildExit::Killed);
    assert_eq!(output.stdout, b"abc".to_vec());
    assert_eq!(output.stderr, b"de".to_vec());
    assert_eq!(output.exit, ChildExit::Killed);
}

#[test]
fn pipes_without_limit_keep_everything() {
    let mut pipes = CapturedPipes::new(true, false, None);
    assert_eq!(pipes.remaining(), usize::MAX);
    assert!(!pipes.accept(true, Some(b"hello")));
    assert_eq!(pipes.remaining(), usize::MAX - 5);
    assert!(!pipes.finished());
    assert!(!pipes.accept(true, None));
    assert!(pipes.finished());
}

#[test]
fn read_size_is_one_past_the_budget_up_to_the_buffer() {
    assert_eq!(read_size(0), 1);
    assert_eq!(read_size(99), 100);
    assert_eq!(read_size(1_000_000), 8192);
    assert_eq!(read_size(usize::MAX), 8192);
}

#[test]
fn output_results_map_to_errors() {
    assert!(output_result("git", Some(3), Ok(false)).is_ok());
    match output_result("git", Some(3), Ok(true)).unwrap_err() {
        ProcessError::OutputLimitExceeded { bin, limit, output } => {
            assert_eq!(bin, "git");
            assert_eq!(limit, 3);
            assert!(output.is_none());
        }
        other => panic!("unexpected {other:?}"),
    }
    match output_result("git", None, Err(io_error(IoErrorKind::Other, "boom"))).unwrap_err() {
        ProcessError::Capture { bin, error } => {
            assert_eq!(bin, "git");
            assert_eq!(error.message, "boom");
        }
        other => panic!("unexpected {other:?}"),
    }
}

#[test]
fn poll_steps_prefer_done_over_deadline() {
    assert_eq!(poll_step(true, 5000, Some(10)), PollStep::Done);
    assert_eq!(poll_step(false, 10, Some(10)), PollStep::TimedOut);
    assert_eq!(poll_step(false, 9, Some(10)), PollStep::Continue);
    assert_eq!(poll_step(false, u64::MAX, None), PollStep::Continue);
}

#[test]
fn captured_output_into_parts() {
    assert_eq!(CapturedOutput::File(42).into_file_len(), 42);
    assert_eq!(CapturedOutput::Memory(vec![1, 2, 3]).into_memory(), vec![1, 2, 3]);
}

#[test]
fn blocking_options_default_is_unbounded() {
    let options = BlockingOptions::default();
    assert_eq!(options.timeout, None);
    assert_eq!(options.output_limit, None);
}

#[test]
fn reads_are_counted_against_the_shared_limit() {
    assert_eq!(account_read(10, 5, None), (10, true));
    assert_eq!(account_read(10, 5, Some(15)), (15, true));
    assert_eq!(account_read(10, 6, Some(15)), (16, false));
    assert_eq!(account_read(usize::MAX - 1, 5, Some(10)), (usize::MAX, false));
}

#[test]
fn written_lengths_saturate() {
    assert_eq!(written_after(10, 5), 15);
    assert_eq!(written_after(u64::MAX - 1, 5), u64::MAX);
}

#[test]
fn deadline_overflow_is_refused() {
    assert_eq!(capture_deadline(100, None).unwrap(), None);
    assert_eq!(capture_deadline(100, Some(50)).unwrap(), Some(150));
    match capture_deadline(u64::MAX, Some(1)).unwrap_err() {
        CaptureError::Capture(error) => {
            assert_eq!(error.message, "process timeout is too large");
            assert_eq!(error.kind, IoErrorKind::Other);
            assert_eq!(error.raw_os_error, None);
        }
        other => panic!("unexpected {other:?}"),
    }
}

#[test]
fn wait_steps_in_order_of_precedence() {
    let options = BlockingOptions { timeout: Some(250), output_limit: Some(64) };
    assert!(matches!(
        wait_step(true, Ok(true), true, true, true, true, &options),
        WaitStep::Abort(CaptureError::OutputLimitExceeded { limit: 64 })
    ));
    assert!(matches!(
        wait_step(false, Err(io_error(IoErrorKind::Other, "x")), true, true, true, true, &options),
        WaitStep::Abort(CaptureError::Capture(_))
    ));
    assert!(matches!(wait_step(false, Ok(true), true, true, true, true, &options), WaitStep::Done));
    assert!(matches!(
        wait_step(false, Ok(true), true, false, true, true, &options),
        WaitStep::Abort(CaptureError::Timeout { timeout_ms: 250 })
    ));
    assert!(matches!(wait_step(false, Ok(false), true, true, true, false, &options), WaitStep::Sleep));
}

#[test]
fn worker_outcomes_are_mapped() {
    match reader_outcome(None).unwrap_err() {
        CaptureError::Capture(error) => assert_eq!(error.message, "process output reader panicked"),
        other => panic!("unexpected {other:?}"),
    }
    assert!(matches!(reader_outcome(Some(Ok(CapturedOutput::File(3)))), Ok(CapturedOutput::File(3))));
    match writer_outcome(None).unwrap_err() {
        CaptureError::Capture(error) => assert_eq!(error.message, "process input writer panicked"),
        other => panic!("unexpected {other:?}"),
    }
    assert!(matches!(
        writer_outcome(Some(Err(io_error(IoErrorKind::Other, "w")))),
        Err(CaptureError::WriteInput(_))
    ));
    assert!(writer_outcome(Some(Ok(()))).is_ok());
}

#[test]
fn broken_pipe_is_no_input_failure() {
    assert!(input_written(Err(io_error(IoErrorKind::BrokenPipe, "pipe"))).is_ok());
    assert!(input_written(Err(io_error(IoErrorKind::Other, "disk"))).is_err());
    assert!(input_written(Ok(())).is_ok());
}

#[test]
fn streams_are_bounded_per_limit() {
    let mut bytes = b"abc".to_vec();
    assert!(append_within_limit(&mut bytes, b"de", 5).is_ok());
    assert_eq!(bytes, b"abcde".to_vec());
    let error = append_within_limit(&mut bytes, b"f", 5).unwrap_err();
    assert_eq!(error.message, "process output exceeded configured byte limit");
    assert_eq!(bytes, b"abcde".to_vec());
}

#[test]
fn run_results_report_the_first_failure() {
    let ok = run_result(RunEnd::IoFirst {
        io: Ok((b"out".to_vec(), b"err".to_vec())),
        exit: Some(Ok(ChildExit::Killed)),
    }, 16)
    .unwrap();
    assert_eq!(ok.stdout, b"out".to_vec());
    assert_eq!(ok.stderr, b"err".to_vec());
    assert!(!needs_cleanup(&Ok(ok)));

    let timed_out = run_result(RunEnd::ExitFirst { exit: Ok(ChildExit::Interrupted), io: None }, 16).unwrap_err();
    assert_eq!(timed_out.kind, IoErrorKind::TimedOut);
    assert_eq!(timed_out.message, "process output pipes did not close after exit");
    assert!(needs_cleanup(&Err(timed_out)));

    let io_failed = run_result(RunEnd::IoFirst { io: Err(io_error(IoErrorKind::Other, "read")), exit: None }, 16).unwrap_err();
    assert_eq!(io_failed.message, "read");
}

#[test]
fn streams_are_read_within_the_limit() {
    let chunks = vec![b"ab".to_vec(), b"cd".to_vec(), b"e".to_vec()];
    assert_eq!(read_stream(&chunks, 5).unwrap(), b"abcde".to_vec());
    let error = read_stream(&chunks, 4).unwrap_err();
    assert_eq!(error.message, "process output exceeded configured byte limit");
    assert_eq!(read_stream(&vec![], 0).unwrap(), Vec::<u8>::new());
}

#[test]
fn drain_timeouts_carry_the_partial_output() {
    let mut pipes = CapturedPipes::new(true, true, None);
    pipes.accept(true, Some(b"part"));
    match finish_drained(pipes, "git", false, 1000, Ok(ChildExit::Killed)).unwrap_err() {
        ProcessError::OutputDrainTimeout { bin, timeout_ms, output: Some(output) } => {
            assert_eq!(bin, "git");
            assert_eq!(timeout_ms, 1000);
            assert_eq!(output.stdout, b"part".to_vec());
            assert_eq!(output.exit, ChildExit::Killed);
        }
        other => panic!("unexpected {other:?}"),
    }

    let pipes = CapturedPipes::new(false, false, None);
    let output = finish_drained(pipes, "git", true, 1000, Ok(ChildExit::Interrupted)).unwrap();
    assert_eq!(output.exit, ChildExit::Interrupted);

    let pipes = CapturedPipes::new(false, false, None);
    match finish_drained(pipes, "git", false, 5, Err(io_error(IoErrorKind::Other, "wait"))).unwrap_err() {
        ProcessError::Cleanup { error, failure, output: None, .. } => {
            assert_eq!(error.message, "wait");
            assert!(matches!(*failure, ProcessError::OutputDrainTimeout { timeout_ms: 5, output: None, .. }));
        }
        other => panic!("unexpected {other:?}"),
    }
}
