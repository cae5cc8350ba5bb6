//! Running commands in an E2B sandbox: how a request becomes the process
//! that is started, the timeouts it is given, and how a failed start or a
//! broken output stream is reported.

use vstd::prelude::*;
use crate::backend_path::{ExecutionState, OperationError};
use crate::e2b_backend::{opt_view, DEFAULT_SHELL};
use crate::e2b_error::E2bFailure;
use crate::e2b_stream::E2bExecOutput;
use crate::text::{decimal, push_char, push_decimal, push_str, trim, trim_chars, chars_of};

verus! {

/// The `timeout` argument for `timeout_ms`: whole seconds as `<s>s`,
/// otherwise `<s>.<mmm>s` with three digits of milliseconds.
pub open spec fn timeout_arg_spec(timeout_ms: u64) -> Seq<char> {
    let s = timeout_ms / 1000;
    let m = timeout_ms % 1000;
    if m == 0 {
        decimal(s as nat) + "s"@
    } else {
        decimal(s as nat) + "."@ + (if m < 10 { "00"@ } else if m < 100 { "0"@ } else { Seq::empty() }) + decimal(m as nat) + "s"@
    }
}

pub fn timeout_arg(timeout_ms: u64) -> (s: String)
    ensures
        s@ == timeout_arg_spec(timeout_ms),
{
    let seconds = timeout_ms / 1000;
    let millis = timeout_ms % 1000;
    let mut s = String::new();
    push_decimal(&mut s, seconds);
    if millis == 0 {
        push_str(&mut s, "s");
        return s;
    }
    push_str(&mut s, ".");
    if millis < 10 {
        push_str(&mut s, "00");
    } else if millis < 100 {
        push_str(&mut s, "0");
    }
    push_decimal(&mut s, millis);
    push_str(&mut s, "s");
    proof {
        reveal_strlit("");
    }
    s
}

/// The connection timeout of a command: ten seconds beyond its own.
pub fn connect_timeout_ms(timeout_ms: Option<u64>) -> (r: Option<u64>)
    ensures
        r == (match timeout_ms {
            Some(t) => Some(if t + 10_000 > u64::MAX { u64::MAX } else { (t + 10_000) as u64 }),
            None => None,
        }),
{
    match timeout_ms {
        Some(t) => Some(t.saturating_add(10_000)),
        None => None,
    }
}

pub open spec fn strings_of(v: Seq<String>) -> Seq<Seq<char>> {
    v.map_values(|s: String| s@)
}

/// The process a command request starts: a shell (the request's, else the
/// backend's default) runs the command with `-c` and takes no arguments;
/// otherwise the command runs with its arguments. With a timeout, the
/// process is wrapped in `timeout --signal=TERM <timeout>`.
pub open spec fn exec_process_spec(command: Seq<char>, args: Seq<Seq<char>>, shell: Option<Seq<char>>, timeout_ms: Option<u64>)
    -> (Seq<char>, Seq<Seq<char>>) {
    match shell {
        Some(sh) => match timeout_ms {
            Some(t) => ("timeout"@, seq!["--signal=TERM"@, timeout_arg_spec(t), sh, "-c"@, command]),
            None => (sh, seq!["-c"@, command]),
        },
        None => match timeout_ms {
            Some(t) => ("timeout"@, seq!["--signal=TERM"@, timeout_arg_spec(t), command] + args),
            None => (command, args),
        },
    }
}

/// Plan the process of a command request: a blank command fails, and a
/// shell does not take arguments.
pub fn plan_exec_process(command: String, args: Vec<String>, shell: Option<String>, default_shell: Option<String>, timeout_ms: Option<u64>)
    -> (r: Result<(String, Vec<String>), OperationError>)
    ensures
        trim(command@).len() == 0 ==> (r matches Err(OperationError::ExecutionFailed { message }) && message@ == "command cannot be empty"@),
        trim(command@).len() > 0 ==> ({
            let sh = match shell { Some(s) => Some(s@), None => opt_view(default_shell) };
            &&& sh is Some && args@.len() > 0 ==> (r matches Err(OperationError::Unsupported { message })
                && message@ == "shell execution does not support args"@)
            &&& !(sh is Some && args@.len() > 0) ==> (r matches Ok((cmd, a)) && (cmd@, strings_of(a@))
                == exec_process_spec(command@, strings_of(args@), sh, timeout_ms))
        }),
{
    let chars = chars_of(command.as_str());
    if trim_chars(&chars).len() == 0 {
        return Err(OperationError::ExecutionFailed { message: String::from_str("command cannot be empty") });
    }
    let chosen = match shell {
        Some(s) => Some(s),
        None => default_shell,
    };
    match chosen {
        Some(sh) => {
            if args.len() > 0 {
                return Err(OperationError::Unsupported { message: String::from_str("shell execution does not support args") });
            }
            match timeout_ms {
                Some(t) => {
                    let mut a: Vec<String> = Vec::new();
                    a.push(String::from_str("--signal=TERM"));
                    a.push(timeout_arg(t));
                    a.push(sh);
                    a.push(String::from_str("-c"));
                    a.push(command);
                    assert(strings_of(a@) =~= seq!["--signal=TERM"@, timeout_arg_spec(t), strings_of(a@)[2], "-c"@, strings_of(a@)[4]]);
                    Ok((String::from_str("timeout"), a))
                },
                None => {
                    let mut a: Vec<String> = Vec::new();
                    a.push(String::from_str("-c"));
                    a.push(command);
                    assert(strings_of(a@) =~= seq!["-c"@, strings_of(a@)[1]]);
                    Ok((sh, a))
                },
            }
        },
        None => match timeout_ms {
            Some(t) => {
                let mut a: Vec<String> = Vec::new();
                a.push(String::from_str("--signal=TERM"));
                a.push(timeout_arg(t));
                a.push(command);
                let ghost head = a@;
                let mut rest = args;
                let ghost all = rest@;
                let n = rest.len();
                let mut i: usize = 0;
                assert(strings_of(all).take(0) =~= Seq::<Seq<char>>::empty());
                while i < n
                    invariant
                        n == all.len(),
                        i <= n,
                        rest@ == all.skip(i as int),
                        strings_of(a@) == strings_of(head) + strings_of(all).take(i as int),
                    decreases n - i,
                {
                    let ghost before = rest@;
                    let arg = rest.remove(0);
                    proof {
                        assert(arg == before[0]);
                        assert(before[0] == all[i as int]);
                        assert(rest@ =~= all.skip(i + 1));
                    }
                    let ghost a0 = a@;
                    a.push(arg);
                    assert(strings_of(a@) =~= strings_of(a0).push(all[i as int]@));
                    assert(strings_of(all).take(i + 1) =~= strings_of(all).take(i as int).push(all[i as int]@));
                    i = i + 1;
                }
                assert(strings_of(all).take(n as int) =~= strings_of(all));
                assert(strings_of(head) =~= seq!["--signal=TERM"@, timeout_arg_spec(t), strings_of(head)[2]]);
                Ok((String::from_str("timeout"), a))
            },
            None => Ok((command, args)),
        },
    }
}

/// Whether a command counts as timed out: the process reported it, or it
/// ran under `timeout` and exited with `timeout`'s status 124.
pub fn exec_timed_out(timeout_ms: Option<u64>, exit_code: Option<i32>, reported: bool) -> (r: bool)
    ensures
        r == (reported || (timeout_ms is Some && exit_code == Some(124i32))),
{
    let by_status = match (timeout_ms, exit_code) {
        (Some(_), Some(code)) => code == 124,
        _ => false,
    };
    reported || by_status
}

/// The process a shell script runs as: the backend's shell (or `/bin/sh`)
/// with `-c` and the script.
pub fn shell_script_process(default_shell: &Option<String>, script: &str) -> (r: (String, Vec<String>))
    ensures
        r.0@ == (match default_shell { Some(s) => s@, None => DEFAULT_SHELL@ }),
        strings_of(r.1@) == seq!["-c"@, script@],
{
    let shell = match default_shell {
        Some(s) => String::from_str(s.as_str()),
        None => String::from_str(DEFAULT_SHELL),
    };
    let mut args: Vec<String> = Vec::new();
    args.push(String::from_str("-c"));
    args.push(String::from_str(script));
    assert(strings_of(args@) =~= seq!["-c"@, script@]);
    (shell, args)
}

/// A failed command start or a broken output stream.
#[derive(Debug)]
pub struct E2bExecFailure {
    pub failure: E2bFailure,
    pub operation_error: Option<OperationError>,
    pub stdout: Vec<u8>,
    pub stderr: Vec<u8>,
    pub execution_state: Option<ExecutionState>,
}

impl E2bExecFailure {
    /// The request did not reach the sandbox.
    pub fn transport(failure: E2bFailure) -> (f: Self)
        ensures
            f.failure == failure && f.operation_error is None && f.stdout@.len() == 0 && f.stderr@.len() == 0
                && f.execution_state is None,
    {
        E2bExecFailure { failure, operation_error: None, stdout: Vec::new(), stderr: Vec::new(), execution_state: None }
    }

    /// The sandbox refused the request with a specific error.
    pub fn operation(failure: E2bFailure, operation_error: OperationError) -> (f: Self)
        ensures
            f.failure == failure && f.operation_error == Some(operation_error) && f.stdout@.len() == 0
                && f.stderr@.len() == 0 && f.execution_state is None,
    {
        E2bExecFailure { failure, operation_error: Some(operation_error), stdout: Vec::new(), stderr: Vec::new(), execution_state: None }
    }

    /// The process started and its output stream broke: what was read so far is kept.
    pub fn interrupted(failure: E2bFailure, stdout: Vec<u8>, stderr: Vec<u8>) -> (f: Self)
        ensures
            f.failure == failure && f.operation_error is None && f.stdout == stdout && f.stderr == stderr
                && f.execution_state == Some(ExecutionState::RunningOrCompleted),
    {
        E2bExecFailure { failure, operation_error: None, stdout, stderr, execution_state: Some(ExecutionState::RunningOrCompleted) }
    }

    /// Whether retrying may help.
    pub fn retryable(&self) -> (r: bool)
        ensures
            r == self.failure.retryable,
    {
        self.failure.retryable
    }

    /// The error the operation reports: the sandbox's own error when there
    /// is one, an interrupted execution with the output read so far when
    /// the process started, otherwise a transport error.
    pub fn into_operation_error(self) -> (e: OperationError)
        ensures
            self.operation_error matches Some(o) ==> e == o,
            self.operation_error is None ==> (self.execution_state matches Some(st) ==> (e matches OperationError::ExecutionInterrupted {
                message, stdout, stderr, state } && message == self.failure.message && stdout == self.stdout && stderr == self.stderr
                && state == st)),
            self.operation_error is None && self.execution_state is None ==> (e matches OperationError::Transport { message }
                && message == self.failure.message),
    {
        if let Some(error) = self.operation_error {
            return error;
        }
        if let Some(state) = self.execution_state {
            return OperationError::ExecutionInterrupted {
                message: self.failure.message,
                stdout: self.stdout,
                stderr: self.stderr,
                state,
            };
        }
        OperationError::Transport { message: self.failure.message }
    }
}

/// The error a refused process start is reported as: not found for 404,
/// permission denied for 401 and 403 (with the reply's message), otherwise
/// a transport error with the failure's own message.
pub fn start_refused_error(status: u16, reply_message: String, failure_message: &str) -> (e: OperationError)
    ensures
        status == 404 ==> (e matches OperationError::NotFound { path } && path@ == reply_message@),
        (status == 401 || status == 403) ==> (e matches OperationError::PermissionDenied { path } && path@ == reply_message@),
        (status != 404 && status != 401 && status != 403) ==> (e matches OperationError::Transport { message }
            && message@ == failure_message@),
{
    if status == 404 {
        OperationError::NotFound { path: reply_message }
    } else if status == 401 || status == 403 {
        OperationError::PermissionDenied { path: reply_message }
    } else {
        OperationError::Transport { message: String::from_str(failure_message) }
    }
}

/// How a broken or malformed output stream ends the command: when the
/// process already reported its end, its output stands; otherwise the
/// command was interrupted with what was read so far.
pub fn conclude_broken_stream(completed: bool, output: E2bExecOutput, failure: E2bFailure) -> (r: Result<E2bExecOutput, E2bExecFailure>)
    ensures
        completed ==> r == Ok::<E2bExecOutput, E2bExecFailure>(output),
        !completed ==> (r matches Err(f) && f.failure == failure && f.operation_error is None
            && f.stdout == output.stdout && f.stderr == output.stderr
            && f.execution_state == Some(ExecutionState::RunningOrCompleted)),
{
    if completed {
        Ok(output)
    } else {
        Err(E2bExecFailure::interrupted(failure, output.stdout, output.stderr))
    }
}

} // verus!
