use starbase_process::error::{
    capture_error, combine_errors, shared_error, CaptureError, IoError, IoErrorKind, ProcessError,
};
use starbase_process::output::{output_to_string, output_to_trimmed_string, Output};
use starbase_process::signal::{
    convert_exit_status, kill, kill_descendants, kill_process_group, ChildExit, ExitStatus, KillCall,
    SignalType,
};
use starbase_process::stream::{collapse_redraw_frames, LinePrefixer, StreamCapture};
use starbase_process::tree::{descendants, parse_ps_output, parse_stat_parent, parse_u32};

fn status(code: Option<i32>) -> ExitStatus {
    ExitStatus { code, signal: None, description: "exit status".to_owned() }
}

fn output(exit: ChildExit, stdout: &[u8], stderr: &[u8]) -> Output {
    Output { exit, stdout: stdout.to_vec(), stderr: stderr.to_vec() }
}

#[test]
fn signal_codes() {
    assert_eq!(SignalType::Interrupt.get_code(), 2);
    assert_eq!(SignalType::Quit.get_code(), 3);
    assert_eq!(SignalType::Kill.get_code(), 9);
    assert_eq!(SignalType::Terminate.get_code(), 15);
}

#[test]
fn kill_plans() {
    assert_eq!(kill(42, SignalType::Terminate), KillCall { target: 42, signal: 15 });
    assert_eq!(kill_process_group(42, SignalType::Kill), Some(KillCall { target: -42, signal: 9 }));
    assert_eq!(kill_process_group(u32::MAX, SignalType::Kill), None);
    assert_eq!(
        kill_descendants(&vec![5, 6], SignalType::Interrupt),
        vec![KillCall { target: 5, signal: 2 }, KillCall { target: 6, signal: 2 }]
    );
    let call = kill(1, SignalType::Kill);
    assert!(call.succeeded(0, None));
    assert!(call.succeeded(-1, Some(3)));
    assert!(!call.succeeded(-1, Some(1)));
    assert!(call.group_succeeded(-1, Some(1), true));
    assert!(!call.group_succeeded(-1, Some(1), false));
}

#[test]
fn exit_conversion_prefers_the_status_signal() {
    let signalled = ExitStatus { code: None, signal: Some(9), description: "signal: 9".to_owned() };
    assert_eq!(convert_exit_status(signalled, Some(SignalType::Terminate)), ChildExit::Killed);
    let interrupted = ExitStatus { code: None, signal: Some(2), description: "signal: 2".to_owned() };
    assert_eq!(convert_exit_status(interrupted, None), ChildExit::Interrupted);
    let other = ExitStatus { code: None, signal: Some(13), description: "signal: 13".to_owned() };
    assert_eq!(convert_exit_status(other, None), ChildExit::Terminated(13));
    assert_eq!(convert_exit_status(status(Some(1)), Some(SignalType::Quit)), ChildExit::Terminated(3));
    assert_eq!(convert_exit_status(status(Some(1)), None), ChildExit::Completed(status(Some(1))));
}

#[test]
fn child_exit_signals() {
    assert_eq!(ChildExit::Interrupted.signal(), Some(2));
    assert_eq!(ChildExit::Killed.signal(), Some(9));
    assert_eq!(ChildExit::Terminated(15).signal(), Some(15));
    assert_eq!(ChildExit::Completed(status(Some(0))).signal(), None);
    assert!(ChildExit::Completed(status(Some(0))).is_completed());
}

#[test]
fn output_strings_are_lossy_and_trimmed() {
    assert_eq!(output_to_string(b"  hi\n"), "  hi\n");
    assert_eq!(output_to_trimmed_string(b"  hi\n"), "hi");
    assert_eq!(output_to_string(&[0x66, 0xff, 0x6f]), "f\u{fffd}o");
}

#[test]
fn output_status_and_info() {
    let ok = output(ChildExit::Completed(status(Some(0))), b" out \n", b"");
    assert!(ok.success());
    assert_eq!(ok.code(), Some(0));
    let info = ok.to_info();
    assert_eq!(info.exit_code, Some(0));
    assert_eq!(info.signal, None);
    assert_eq!(info.stdout.as_deref(), Some("out"));
    assert_eq!(info.stderr, None);

    let killed = output(ChildExit::Killed, b"", b"");
    assert!(!killed.success());
    assert_eq!(killed.to_info().signal, Some(9));
    assert_eq!(killed.status_text(), "killed");
    assert_eq!(output(ChildExit::Terminated(15), b"", b"").status_text(), "terminated by signal 15");
    assert_eq!(output(ChildExit::Completed(status(Some(-2))), b"", b"").status_text(), "exit code -2");
}

#[test]
fn output_errors_show_stderr_or_stdout() {
    let failed = output(ChildExit::Completed(status(Some(1))), b" from stdout ", b" \n");
    match failed.to_error("git", true) {
        ProcessError::ExitNonZeroWithOutput { bin, status, code, output } => {
            assert_eq!(bin, "git");
            assert_eq!(status, "exit code 1");
            assert_eq!(code, Some(1));
            assert_eq!(output, "\n\nfrom stdout");
        }
        other => panic!("unexpected {other:?}"),
    }
    let error = failed.to_error("git", false);
    assert_eq!(error.get_exit_code(), Some(1));
    assert!(matches!(error, ProcessError::ExitNonZero { .. }));
}

#[test]
fn errors_combine_and_share() {
    let first = IoError::other("spawn failed");
    let second = IoError { kind: IoErrorKind::BrokenPipe, raw_os_error: Some(32), message: "pipe".to_owned() };
    let combined = combine_errors(&first, &second);
    assert_eq!(combined.kind, IoErrorKind::Other);
    assert_eq!(combined.message, "spawn failed; process cleanup also failed: pipe");
    let shared = shared_error(&second);
    assert_eq!(shared.kind, IoErrorKind::BrokenPipe);
    assert_eq!(shared.raw_os_error, None);
    assert_eq!(shared.message, "pipe");
    match capture_error("nope") {
        CaptureError::Capture(e) => assert_eq!(e.message, "nope"),
        other => panic!("unexpected {other:?}"),
    }
}

#[test]
fn redraw_frames_keep_the_last_one() {
    assert_eq!(collapse_redraw_frames(b"plain\ntext".to_vec()), b"plain\ntext".to_vec());
    assert_eq!(collapse_redraw_frames(b"10%\r50%\r100%\ndone\r\n".to_vec()), b"100%\ndone\r\n".to_vec());
    assert_eq!(collapse_redraw_frames(b"a\rb".to_vec()), b"b".to_vec());
}

#[test]
fn prefixes_every_line_across_chunks() {
    let mut prefixer = LinePrefixer::new(Some("[x] ".to_owned()));
    let mut out = Vec::new();
    prefixer.write_chunk(b"one\ntw", &mut out);
    prefixer.write_chunk(b"o\nthree", &mut out);
    assert_eq!(out, b"[x] one\n[x] two\n[x] three".to_vec());

    let mut plain = LinePrefixer::new(None);
    let mut out = Vec::new();
    plain.write_chunk(b"a\nb", &mut out);
    assert_eq!(out, b"a\nb".to_vec());
}

#[test]
fn stream_capture_shows_and_collapses() {
    let mut capture = StreamCapture::new(Some("> ".to_owned()));
    assert_eq!(capture.feed(b"1\r2\n"), b"> 1\r2\n".to_vec());
    assert_eq!(capture.finish(), b"2\n".to_vec());
}

#[test]
fn parses_process_tables() {
    assert_eq!(parse_u32(&['4', '2']), Some(42));
    assert_eq!(parse_u32(&[]), None);
    assert_eq!(parse_u32(&['4', 'x']), None);
    assert_eq!(parse_stat_parent("123 (my (odd) prog) S 77 1 2"), Some(77));
    assert_eq!(parse_stat_parent("garbage"), None);
    assert_eq!(parse_ps_output("  1   0\n 20   1\nbad line\n 30  20\n"), vec![(1, 0), (20, 1), (30, 20)]);
}

#[test]
fn descendants_walk_the_whole_tree() {
    let pairs = vec![(2, 1), (3, 1), (4, 2), (5, 4), (6, 9), (1, 0)];
    assert_eq!(descendants(1, pairs), vec![2, 3, 4, 5]);
    assert_eq!(descendants(7, vec![(2, 1)]), Vec::<u32>::new());
}
