//! The result of running a command, and its serializable summary.

use crate::error::ProcessError;
use crate::signal::{exit_signal, ChildExit, ExitStatus};
use crate::text::{decode_lossy, i32_to_decimal, lemma_trim_idempotent, signed_decimal, trim, trim_spec, utf8_lossy};
use vstd::prelude::*;
use vstd::utf8::{decode_utf8, encode_utf8, valid_utf8};

verus! {

/// A summary of a process's [`Output`], suitable for caching or logging.
/// Fields that don't apply to the exit are `None`.
#[derive(Clone, Debug, PartialEq, Eq)]
pub struct OutputInfo {
    /// The process exit code, if it exited normally.
    pub exit_code: Option<i32>,
    /// The signal that terminated the process, if any.
    pub signal: Option<u8>,
    /// The trimmed stderr, if any was captured.
    pub stderr: Option<String>,
    /// The trimmed stdout, if any was captured.
    pub stdout: Option<String>,
}

/// The result of running a command: how it exited, and whatever output
/// was captured.
#[derive(Clone, Debug, PartialEq, Eq)]
pub struct Output {
    /// How the process exited.
    pub exit: ChildExit,
    /// The captured stderr, empty if not captured.
    pub stderr: Vec<u8>,
    /// The captured stdout, empty if not captured.
    pub stdout: Vec<u8>,
}

/// The mathematical view of an [`Output`].
#[verifier::ext_equal]
pub struct OutputView {
    pub exit: ChildExit,
    pub stderr: Seq<u8>,
    pub stdout: Seq<u8>,
}

impl View for Output {
    type V = OutputView;

    open spec fn view(&self) -> OutputView {
        OutputView { exit: self.exit, stderr: self.stderr@, stdout: self.stdout@ }
    }
}

/// Bytes decoded as lossy UTF-8: valid UTF-8 gives exactly its
/// characters, and other bytes what the lossy decoding gives.
pub open spec fn output_text(data: Seq<u8>) -> Seq<char> {
    if valid_utf8(data) {
        decode_utf8(data)
    } else {
        utf8_lossy(data)
    }
}

/// Bytes decoded as lossy UTF-8, with surrounding whitespace trimmed.
pub open spec fn trimmed_output_text(data: Seq<u8>) -> Seq<char> {
    trim_spec(output_text(data))
}

/// Convert raw bytes to a string, replacing invalid UTF-8 sequences.
pub fn output_to_string(data: &[u8]) -> (r: String)
    ensures
        r@ == output_text(data@),
        valid_utf8(data@) ==> r@ == decode_utf8(data@),
{
    decode_lossy(data)
}

/// Convert raw bytes to a string, replacing invalid UTF-8 sequences and
/// trimming leading and trailing whitespace.
pub fn output_to_trimmed_string(data: &[u8]) -> (r: String)
    ensures
        r@ == trimmed_output_text(data@),
        valid_utf8(data@) ==> r@ == trim_spec(decode_utf8(data@)),
{
    let s = output_to_string(data);
    trim(s.as_str())
}

/// The exit status of a process that ran to completion.
pub open spec fn exit_status(exit: ChildExit) -> Option<ExitStatus> {
    match exit {
        ChildExit::Completed(status) => Some(status),
        _ => None,
    }
}

/// The exit code of a process that exited normally.
pub open spec fn exit_code(exit: ChildExit) -> Option<i32> {
    match exit {
        ChildExit::Completed(status) => status.code,
        _ => None,
    }
}

/// A signal number narrowed to a byte, when it fits.
pub open spec fn signal_byte(signal: Option<i32>) -> Option<u8> {
    match signal {
        Some(s) => if 0 <= s <= 255 {
            Some(s as u8)
        } else {
            None
        },
        None => None,
    }
}

/// The summary of captured bytes: `None` when empty, the trimmed text
/// otherwise.
pub open spec fn captured_text(data: Seq<u8>) -> Option<Seq<char>> {
    if data.len() == 0 {
        None
    } else {
        Some(trimmed_output_text(data))
    }
}

/// The human readable status of an exit, as error messages show it.
pub open spec fn status_text(exit: ChildExit) -> Seq<char> {
    match exit {
        ChildExit::Completed(status) => match status.code {
            Some(code) => "exit code "@ + signed_decimal(code as int),
            None => status.description@,
        },
        ChildExit::Interrupted => "interrupted"@,
        ChildExit::Killed => "killed"@,
        ChildExit::Terminated(signal) => "terminated by signal "@ + signed_decimal(signal as int),
    }
}

/// The output shown in an error: stderr, or stdout when stderr is blank,
/// set off by a blank line; empty when both are blank.
pub open spec fn error_output_text(stderr: Seq<u8>, stdout: Seq<u8>) -> Seq<char> {
    let message = if trimmed_output_text(stderr).len() == 0 {
        trimmed_output_text(stdout)
    } else {
        trimmed_output_text(stderr)
    };
    if message.len() == 0 {
        message
    } else {
        "\n\n"@ + message
    }
}

fn optional_text(data: &Vec<u8>) -> (r: Option<String>)
    ensures
        match r {
            Some(s) => captured_text(data@) == Some(s@),
            None => captured_text(data@) is None,
        },
{
    if data.len() == 0 {
        None
    } else {
        Some(output_to_trimmed_string(data.as_slice()))
    }
}

impl Output {
    /// A copy of this output.
    pub fn duplicate(&self) -> (r: Output)
        ensures
            r@ == self@,
    {
        let stdout = self.stdout.clone();
        let stderr = self.stderr.clone();
        assert(stdout@ =~= self.stdout@);
        assert(stderr@ =~= self.stderr@);
        Output { exit: self.exit.duplicate(), stderr, stdout }
    }

    /// Return the process exit code, if it exited normally.
    pub fn code(&self) -> (r: Option<i32>)
        ensures
            r == exit_code(self.exit),
    {
        match &self.exit {
            ChildExit::Completed(status) => status.code(),
            _ => None,
        }
    }

    /// Return the exit status, if the process ran to completion rather
    /// than being interrupted, killed, or terminated by a signal.
    pub fn status(&self) -> (r: Option<ExitStatus>)
        ensures
            r == exit_status(self.exit),
    {
        match &self.exit {
            ChildExit::Completed(status) => Some(status.duplicate()),
            _ => None,
        }
    }

    /// Return true if the process exited with a zero status.
    pub fn success(&self) -> (r: bool)
        ensures
            r == (exit_code(self.exit) == Some(0i32)),
    {
        match &self.exit {
            ChildExit::Completed(status) => status.success(),
            _ => false,
        }
    }

    /// Convert to a trimmed summary suitable for caching.
    pub fn to_info(&self) -> (r: OutputInfo)
        ensures
            r.exit_code == exit_code(self.exit),
            r.signal == signal_byte(exit_signal(self.exit)),
            match r.stderr {
                Some(s) => captured_text(self.stderr@) == Some(s@),
                None => captured_text(self.stderr@) is None,
            },
            match r.stdout {
                Some(s) => captured_text(self.stdout@) == Some(s@),
                None => captured_text(self.stdout@) is None,
            },
    {
        let signal = match self.exit.signal() {
            Some(s) => if 0 <= s && s <= 255 {
                Some(s as u8)
            } else {
                None
            },
            None => None,
        };
        OutputInfo {
            exit_code: self.code(),
            signal,
            stderr: optional_text(&self.stderr),
            stdout: optional_text(&self.stdout),
        }
    }

    /// The human readable status of the exit, e.g. `exit code 1`.
    pub fn status_text(&self) -> (r: String)
        ensures
            r@ == status_text(self.exit),
    {
        match &self.exit {
            ChildExit::Completed(status) => match status.code {
                Some(code) => {
                    let mut s = String::from_str("exit code ");
                    let digits = i32_to_decimal(code);
                    s.append(digits.as_str());
                    s
                },
                None => status.description.clone(),
            },
            ChildExit::Interrupted => String::from_str("interrupted"),
            ChildExit::Killed => String::from_str("killed"),
            ChildExit::Terminated(signal) => {
                let mut s = String::from_str("terminated by signal ");
                let digits = i32_to_decimal(*signal);
                s.append(digits.as_str());
                s
            },
        }
    }

    /// Convert a failed exit into a [`ProcessError`]. When `with_message`
    /// is true, the captured stderr (or stdout if stderr is empty) is
    /// included in the error.
    pub fn to_error(&self, bin: &str, with_message: bool) -> (r: ProcessError)
        ensures
            !with_message ==> (r matches ProcessError::ExitNonZero { bin: b, status, code } && b@
                == bin@ && status@ == status_text(self.exit) && code == exit_code(self.exit)),
            with_message ==> (r matches ProcessError::ExitNonZeroWithOutput {
                bin: b,
                status,
                code,
                output,
            } && b@ == bin@ && status@ == status_text(self.exit) && code == exit_code(self.exit)
                && output@ == error_output_text(self.stderr@, self.stdout@)),
    {
        let bin = bin.to_owned();
        let code = self.code();
        let status = self.status_text();
        if !with_message {
            return ProcessError::ExitNonZero { bin, status, code };
        }
        let mut message = output_to_trimmed_string(self.stderr.as_slice());
        if message.as_str().is_empty() {
            message = output_to_trimmed_string(self.stdout.as_slice());
        }
        if !message.as_str().is_empty() {
            let mut framed = String::from_str("\n\n");
            framed.append(message.as_str());
            message = framed;
        }
        ProcessError::ExitNonZeroWithOutput { bin, status, code, output: message }
    }
}

/// Trimming captured output is stable: the bytes of a trimmed output,
/// trimmed again, give the same text.
pub proof fn law_trimmed_output_is_stable(data: Seq<u8>)
    ensures
        trimmed_output_text(encode_utf8(trimmed_output_text(data))) == trimmed_output_text(data),
{
    let t = trimmed_output_text(data);
    vstd::utf8::encode_utf8_valid_utf8(t);
    vstd::utf8::encode_utf8_decode_utf8(t);
    lemma_trim_idempotent(output_text(data));
}

/// The output shown in an error is the trimmed stderr whenever there is
/// any, whatever stdout holds; stdout is shown only when stderr is blank;
/// nothing is shown when both are blank.
pub proof fn law_error_output_prefers_stderr(stderr: Seq<u8>, stdout: Seq<u8>)
    ensures
        trimmed_output_text(stderr).len() > 0 ==> error_output_text(stderr, stdout) == "\n\n"@ + trimmed_output_text(
            stderr,
        ),
        trimmed_output_text(stderr).len() == 0 && trimmed_output_text(stdout).len() > 0 ==> error_output_text(
            stderr,
            stdout,
        ) == "\n\n"@ + trimmed_output_text(stdout),
        trimmed_output_text(stderr).len() == 0 && trimmed_output_text(stdout).len() == 0 ==> error_output_text(
            stderr,
            stdout,
        ).len() == 0,
{
}

} // verus!
