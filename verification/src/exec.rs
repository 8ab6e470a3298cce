//! The guest RPC protocol decisions and the execution handle: request
//! assembly, terminal-status mapping, cancellation results, and the
//! cached, idempotent `wait`.
//!
//! The RPC transport itself and the background pump tasks live outside;
//! they call these functions on the plain values they receive.

use vstd::prelude::*;

use crate::errors::{BoxliteError, BoxliteResult};
use crate::strutil::seq_views;

verus! {

// ============================================================================
// Commands
// ============================================================================

/// A command to run inside a box.
#[derive(Debug, Clone)]
pub struct BoxCommand {
    pub command: String,
    pub args: Vec<String>,
    pub env: Vec<(String, String)>,
    pub working_dir: Option<String>,
    /// Milliseconds; `None` means no timeout.
    pub timeout_ms: Option<u64>,
    pub tty: bool,
}

impl BoxCommand {
    /// A command with no arguments, environment, working directory,
    /// timeout or TTY.
    pub fn new(command: String) -> (r: Self)
        ensures
            r.command == command,
            r.args@.len() == 0,
            r.env@.len() == 0,
            r.working_dir is None,
            r.timeout_ms is None,
            r.tty == false,
    {
        BoxCommand {
            command,
            args: Vec::new(),
            env: Vec::new(),
            working_dir: None,
            timeout_ms: None,
            tty: false,
        }
    }

    /// Replace the arguments.
    pub fn args(self, args: Vec<String>) -> (r: Self)
        ensures
            r == (BoxCommand { args, ..self }),
    {
        BoxCommand { args, ..self }
    }

    /// Append one argument.
    pub fn arg(self, a: String) -> (r: Self)
        ensures
            r.args@ == self.args@.push(a),
            r.command == self.command,
            r.env == self.env,
            r.working_dir == self.working_dir,
            r.timeout_ms == self.timeout_ms,
            r.tty == self.tty,
    {
        let mut s = self;
        s.args.push(a);
        s
    }

    /// Add one environment variable.
    pub fn env(self, key: String, value: String) -> (r: Self)
        ensures
            r.env@ == self.env@.push((key, value)),
            r.command == self.command,
            r.args == self.args,
            r.working_dir == self.working_dir,
            r.timeout_ms == self.timeout_ms,
            r.tty == self.tty,
    {
        let mut s = self;
        s.env.push((key, value));
        s
    }

    /// Set the working directory.
    pub fn working_dir(self, dir: String) -> (r: Self)
        ensures
            r == (BoxCommand { working_dir: Some(dir), ..self }),
    {
        BoxCommand { working_dir: Some(dir), ..self }
    }

    /// Request (or drop) a pseudo-TTY.
    pub fn tty(self, on: bool) -> (r: Self)
        ensures
            r == (BoxCommand { tty: on, ..self }),
    {
        BoxCommand { tty: on, ..self }
    }
}

// ============================================================================
// Wire messages
// ============================================================================

/// Terminal geometry sent along a TTY request.
#[derive(Debug, Clone, Copy, PartialEq, Eq, Structural)]
pub struct TtyConfig {
    pub rows: u32,
    pub cols: u32,
    pub x_pixels: u32,
    pub y_pixels: u32,
}

/// The `Exec` request sent to the guest.
#[derive(Debug, Clone)]
pub struct ExecRequest {
    pub execution_id: Option<String>,
    pub program: String,
    pub args: Vec<String>,
    pub env: Vec<(String, String)>,
    pub workdir: String,
    /// Zero means no timeout.
    pub timeout_ms: u64,
    pub tty: Option<TtyConfig>,
}

/// The guest's answer to `Wait`.
#[derive(Debug, Clone, Copy, PartialEq, Eq, Structural)]
pub struct WaitResponse {
    pub exit_code: i32,
    pub signal: i32,
}

/// The terminal result of one execution.
#[derive(Debug, Clone, Copy, PartialEq, Eq, Structural)]
pub struct ExecResult {
    pub exit_code: i32,
}

/// Requesting a TTY without detaching needs the host's stdin to be a
/// terminal.
pub fn tty_request_allowed(tty: bool, detach: bool, stdin_is_terminal: bool) -> (r: bool)
    ensures
        r == (detach || !tty || stdin_is_terminal),
{
    detach || !tty || stdin_is_terminal
}

/// Build the `Exec` request from a command: the TTY configuration carries
/// the host terminal's size, a missing working directory becomes empty,
/// and a missing timeout becomes zero.
pub fn build_exec_request(command: &BoxCommand, terminal_rows: u32, terminal_cols: u32) -> (r:
    ExecRequest)
    ensures
        r.execution_id is None,
        r.program@ == command.command@,
        seq_views(r.args@) == seq_views(command.args@),
        r.env@.len() == command.env@.len(),
        forall|i: int|
            0 <= i < r.env@.len() ==> (#[trigger] r.env@[i]).0@ == command.env@[i].0@
                && r.env@[i].1@ == command.env@[i].1@,
        r.workdir@ == (match command.working_dir {
            Some(w) => w@,
            None => Seq::<char>::empty(),
        }),
        r.timeout_ms == (match command.timeout_ms {
            Some(t) => t,
            None => 0u64,
        }),
        command.tty ==> r.tty == Some(
            TtyConfig { rows: terminal_rows, cols: terminal_cols, x_pixels: 0, y_pixels: 0 },
        ),
        !command.tty ==> r.tty is None,
{
    let mut args: Vec<String> = Vec::new();
    let na = command.args.len();
    let mut i: usize = 0;
    proof {
        assert(seq_views(args@) =~= seq_views(command.args@).take(0));
    }
    while i < na
        invariant
            na == command.args@.len(),
            i <= na,
            seq_views(args@) == seq_views(command.args@).take(i as int),
        decreases na - i,
    {
        let x = command.args[i].clone();
        let ghost prev = args@;
        args.push(x);
        proof {
            assert(seq_views(args@) =~= seq_views(prev).push(command.args@[i as int]@));
            assert(seq_views(prev).push(command.args@[i as int]@) =~= seq_views(
                command.args@,
            ).take(i as int + 1));
        }
        i += 1;
    }
    proof {
        assert(seq_views(command.args@).take(na as int) =~= seq_views(command.args@));
    }
    let mut env: Vec<(String, String)> = Vec::new();
    let ne = command.env.len();
    let mut j: usize = 0;
    while j < ne
        invariant
            ne == command.env@.len(),
            j <= ne,
            env@.len() == j,
            forall|k: int|
                0 <= k < j ==> (#[trigger] env@[k]).0@ == command.env@[k].0@ && env@[k].1@
                    == command.env@[k].1@,
        decreases ne - j,
    {
        let kv = &command.env[j];
        env.push((kv.0.clone(), kv.1.clone()));
        j += 1;
    }
    let workdir = match &command.working_dir {
        Some(w) => w.clone(),
        None => String::new(),
    };
    let timeout_ms = match command.timeout_ms {
        Some(t) => t,
        None => 0,
    };
    let tty = if command.tty {
        Some(TtyConfig { rows: terminal_rows, cols: terminal_cols, x_pixels: 0, y_pixels: 0 })
    } else {
        None
    };
    ExecRequest {
        execution_id: None,
        program: command.command.clone(),
        args,
        env,
        workdir,
        timeout_ms,
        tty,
    }
}

/// The exit code a wait response denotes: the negated signal where one
/// terminated the process, the raw exit code otherwise.
pub open spec fn spec_map_wait_response(resp: WaitResponse) -> ExecResult {
    ExecResult {
        exit_code: if resp.signal != 0 {
            (-(resp.signal as int)) as i32
        } else {
            resp.exit_code
        },
    }
}

/// Map a wait response to an execution result.
pub fn map_wait_response(resp: WaitResponse) -> (r: ExecResult)
    requires
        resp.signal > i32::MIN,
    ensures
        r == spec_map_wait_response(resp),
{
    if resp.signal != 0 {
        ExecResult { exit_code: -resp.signal }
    } else {
        ExecResult { exit_code: resp.exit_code }
    }
}

/// What the wait task emits: the mapped response where the RPC returned
/// one, and exit code `-1` under cancellation or a transport failure.
pub fn wait_task_result(cancelled: bool, response: Option<WaitResponse>) -> (r: ExecResult)
    requires
        response matches Some(w) ==> w.signal > i32::MIN,
    ensures
        cancelled ==> r.exit_code == -1,
        !cancelled ==> r == (match response {
            Some(w) => spec_map_wait_response(w),
            None => (ExecResult { exit_code: -1i32 }),
        }),
{
    if cancelled {
        ExecResult { exit_code: -1 }
    } else {
        match response {
            Some(w) => map_wait_response(w),
            None => ExecResult { exit_code: -1 },
        }
    }
}

/// Read the guest's `Exec` response: its error, where one came, wins over
/// the execution id and is reported as `reason: detail`.
pub fn check_exec_response(execution_id: String, error: Option<(String, String)>) -> (r:
    BoxliteResult<String>)
    ensures
        (r is Ok) <==> (error is None),
        r matches Ok(id) ==> id == execution_id,
        error matches Some(rd) ==> (r matches Err(e) && (e matches BoxliteError::Internal(m) && m@
            == rd.0@ + ": "@ + rd.1@)),
{
    match error {
        Some(re) => {
            let (reason, detail) = re;
            let mut msg = reason;
            msg.append(": ");
            msg.append(detail.as_str());
            Err(BoxliteError::Internal(msg))
        },
        None => Ok(execution_id),
    }
}

// ============================================================================
// Stream pumps' decisions
// ============================================================================

/// One event arriving on the attach stream.
#[derive(Debug, Clone)]
pub enum AttachEvent {
    Stdout(Vec<u8>),
    Stderr(Vec<u8>),
}

/// Where the attach fanout delivers an event.
#[derive(Debug, Clone)]
pub enum AttachRoute {
    ToStdout(Vec<u8>),
    ToStderr(Vec<u8>),
}

/// Route one attach event: stdout chunks to the stdout channel, stderr
/// chunks to the stderr channel, data untouched.
pub fn route_output(ev: AttachEvent) -> (r: AttachRoute)
    ensures
        ev matches AttachEvent::Stdout(d) ==> r == AttachRoute::ToStdout(d),
        ev matches AttachEvent::Stderr(d) ==> r == AttachRoute::ToStderr(d),
{
    match ev {
        AttachEvent::Stdout(d) => AttachRoute::ToStdout(d),
        AttachEvent::Stderr(d) => AttachRoute::ToStderr(d),
    }
}

/// One frame of the bidirectional stdin stream.
#[derive(Debug, Clone)]
pub struct ExecStdinFrame {
    pub execution_id: String,
    pub data: Vec<u8>,
    pub close: bool,
}

/// The frame the stdin pump sends for one channel read: the bytes as they
/// came, or the close frame once the host side closed the channel.
pub fn stdin_frame(execution_id: String, chunk: Option<Vec<u8>>) -> (r: ExecStdinFrame)
    ensures
        r.execution_id == execution_id,
        chunk matches Some(d) ==> r.data == d && !r.close,
        chunk is None ==> r.data@.len() == 0 && r.close,
{
    match chunk {
        Some(data) => ExecStdinFrame { execution_id, data, close: false },
        None => ExecStdinFrame { execution_id, data: Vec::new(), close: true },
    }
}

/// Read a `Kill` or `ResizeTty` acknowledgement: failure carries the
/// guest's message, or the given default.
pub fn interpret_ack(success: bool, error: Option<String>, default_msg: &str) -> (r: BoxliteResult<
    (),
>)
    ensures
        (r is Ok) <==> success,
        !success ==> (r matches Err(e) && (e matches BoxliteError::Internal(m) && m@ == (
        match error {
            Some(s) => s@,
            None => default_msg@,
        }))),
{
    if success {
        Ok(())
    } else {
        match error {
            Some(s) => Err(BoxliteError::Internal(s)),
            None => Err(BoxliteError::Internal(String::from_str(default_msg))),
        }
    }
}

// ============================================================================
// The execution handle
// ============================================================================

/// What one `wait` call does to an execution: the first call consumes the
/// terminal outcome the wait task delivered (`None` stands for a closed
/// channel and becomes exit code `-1`); later calls return the cached
/// result and change nothing.
pub open spec fn spec_wait_step(e: Execution, outcome: Option<ExecResult>) -> (
    Execution,
    ExecResult,
) {
    match e.cached {
        Some(c) => (e, c),
        None => {
            let r = match outcome {
                Some(res) => res,
                None => ExecResult { exit_code: -1i32 },
            };
            (Execution { cached: Some(r), ..e }, r)
        },
    }
}

/// One command running inside a box, addressed by its execution id; the
/// terminal result is cached once known.
#[derive(Debug, Clone)]
pub struct Execution {
    pub execution_id: String,
    pub cached: Option<ExecResult>,
}

impl Execution {
    /// A fresh execution with no cached result.
    pub fn new(execution_id: String) -> (r: Self)
        ensures
            r.execution_id == execution_id,
            r.cached is None,
    {
        Execution { execution_id, cached: None }
    }

    /// One `wait` call, given the terminal outcome the wait task
    /// delivered (asked for only on the first call).
    pub fn wait_step(&mut self, outcome: Option<ExecResult>) -> (r: ExecResult)
        ensures
            (*final(self), r) == spec_wait_step(*old(self), outcome),
            final(self).cached == Some(r),
    {
        match self.cached {
            Some(c) => c,
            None => {
                let r = match outcome {
                    Some(res) => res,
                    None => ExecResult { exit_code: -1 },
                };
                self.cached = Some(r);
                r
            },
        }
    }
}

/// `wait` is idempotent: whatever outcome a second call would consume, it
/// returns the first call's result and leaves the execution unchanged.
pub proof fn lemma_wait_idempotent(
    e: Execution,
    o1: Option<ExecResult>,
    o2: Option<ExecResult>,
)
    ensures
        ({
            let (e1, r1) = spec_wait_step(e, o1);
            let (e2, r2) = spec_wait_step(e1, o2);
            r2 == r1 && e2 == e1
        }),
{
}

} // verus!
