//! Command results, bounded output capture, log messages, and the decisions
//! of the command runner's wait loop.
use vstd::prelude::*;
use crate::text::{chars_of, decimal, decimal_string, lines, lines_of, string_of, trim, trim_chars};

verus! {

/// How much of each output stream a command run keeps (its most recent bytes).
pub const MAX_CAPTURE_BYTES: usize = 524288;

/// How a command run ended.
#[derive(Debug, Clone, Copy, PartialEq, Eq, Structural)]
pub enum CommandState {
    Exited,
    TimedOut,
    Cancelled,
    SpawnFailed,
    WaitFailed,
}

/// The end of a command run and what it printed.
#[derive(Debug, Clone)]
pub struct CommandResult {
    pub state: CommandState,
    pub exit_code: Option<i32>,
    pub output: String,
}

/// The last line of the trimmed text, or a fixed note when there is none.
pub open spec fn last_line_or_note(s: Seq<char>) -> Seq<char> {
    let ls = lines(trim(s));
    if ls.len() == 0 {
        "无诊断输出"@
    } else {
        ls.last()
    }
}

/// The last line of the trimmed output, or a fixed note when there is none.
pub fn last_line(output: &str) -> (r: String)
    ensures
        r@ == last_line_or_note(output@),
{
    let cs = chars_of(output);
    let t = trim_chars(cs.as_slice());
    let ls = lines_of(t.as_slice());
    if ls.len() == 0 {
        "无诊断输出".to_owned()
    } else {
        let last = &ls[ls.len() - 1];
        string_of(last.as_slice())
    }
}

impl CommandResult {
    /// The command exited with code 0.
    pub fn succeeded(&self) -> (r: bool)
        ensures
            r == (self.state == CommandState::Exited && self.exit_code == Some(0i32)),
    {
        self.state == CommandState::Exited && match self.exit_code {
            Some(code) => code == 0,
            None => false,
        }
    }

    /// The command exited with code 0, or with 3010 (done, reboot required).
    pub fn succeeded_or_reboot_required(&self) -> (r: bool)
        ensures
            r == (self.state == CommandState::Exited && (self.exit_code == Some(0i32)
                || self.exit_code == Some(3010i32))),
    {
        self.state == CommandState::Exited && match self.exit_code {
            Some(code) => code == 0 || code == 3010,
            None => false,
        }
    }

    pub fn cancelled(&self) -> (r: bool)
        ensures
            r == (self.state == CommandState::Cancelled),
    {
        self.state == CommandState::Cancelled
    }

    /// The last line of the trimmed output, or a fixed note when there is none.
    pub fn diagnostic(&self) -> (r: String)
        ensures
            r@ == last_line_or_note(self.output@),
    {
        last_line(self.output.as_str())
    }

    /// The result of a run that was cancelled before it started.
    pub fn cancelled_before_start() -> (r: CommandResult)
        ensures
            r.state == CommandState::Cancelled,
            r.exit_code is None,
            r.output@ == "操作已取消"@,
    {
        CommandResult { state: CommandState::Cancelled, exit_code: None, output: "操作已取消".to_owned() }
    }

    /// The result of a run whose program could not be started.
    pub fn spawn_failed(program: &str, error: &str) -> (r: CommandResult)
        ensures
            r.state == CommandState::SpawnFailed,
            r.exit_code is None,
            r.output@ == "无法启动 "@ + program@ + ": "@ + error@,
    {
        let mut output = "无法启动 ".to_owned();
        output.append(program);
        output.append(": ");
        output.append(error);
        CommandResult { state: CommandState::SpawnFailed, exit_code: None, output }
    }
}

/// The most recent bytes of an output stream, and whether older ones were dropped.
pub struct PipeCapture {
    buffer: Vec<u8>,
    dropped: bool,
}

/// The last `MAX_CAPTURE_BYTES` bytes of `s` (all of `s` when it is shorter).
pub open spec fn capture_tail(s: Seq<u8>) -> Seq<u8> {
    if s.len() > MAX_CAPTURE_BYTES {
        s.skip(s.len() - MAX_CAPTURE_BYTES)
    } else {
        s
    }
}

/// Cutting a stream to its tail before more bytes arrive keeps the same tail.
pub proof fn lemma_tail_absorbs(x: Seq<u8>, y: Seq<u8>)
    ensures
        capture_tail(capture_tail(x) + y) == capture_tail(x + y),
{
    let m = MAX_CAPTURE_BYTES as int;
    if x.len() > m && y.len() == 0 {
        assert(capture_tail(x) + y =~= capture_tail(x));
        assert(x + y =~= x);
    } else if x.len() > m {
        let tx = x.skip(x.len() - m);
        let a = tx + y;
        let b = x + y;
        assert(a.len() > m);
        assert(b.len() > m);
        let ta = a.skip(a.len() - m);
        let tb = b.skip(b.len() - m);
        assert forall|k: int| 0 <= k < m implies ta[k] == tb[k] by {
            let ia = a.len() - m + k;
            let ib = b.len() - m + k;
            if ia < tx.len() {
                assert(ib < x.len());
                assert(a[ia] == tx[ia]);
                assert(tx[ia] == x[x.len() - m + ia]);
                assert(b[ib] == x[ib]);
            } else {
                assert(a[ia] == y[ia - tx.len()]);
                assert(b[ib] == y[ib - x.len()]);
            }
        }
        assert(ta =~= tb);
    } else {
        assert(capture_tail(x) == x);
    }
}

impl PipeCapture {
    /// The bytes the capture keeps.
    pub closed spec fn kept(&self) -> Seq<u8> {
        capture_tail(self.buffer@)
    }

    /// Older bytes have been dropped.
    pub closed spec fn was_truncated(&self) -> bool {
        self.dropped || self.buffer@.len() > MAX_CAPTURE_BYTES
    }

    pub closed spec fn wf(&self) -> bool {
        self.buffer@.len() <= 2 * MAX_CAPTURE_BYTES
    }

    pub fn new() -> (r: PipeCapture)
        ensures
            r.wf(),
            r.kept() == Seq::<u8>::empty(),
            !r.was_truncated(),
    {
        PipeCapture { buffer: Vec::new(), dropped: false }
    }

    /// Adds bytes read from the stream, keeping only the most recent
    /// `MAX_CAPTURE_BYTES`.
    pub fn extend(&mut self, chunk: &[u8])
        requires
            old(self).wf(),
        ensures
            final(self).wf(),
            final(self).kept() == capture_tail(old(self).kept() + chunk@),
            final(self).was_truncated() == (old(self).was_truncated() || old(self).kept().len() + chunk@.len() > MAX_CAPTURE_BYTES),
    {
        let ghost start_kept = self.kept();
        let ghost start_trunc = self.was_truncated();
        proof {
            assert(chunk@.take(0) + Seq::<u8>::empty() == Seq::<u8>::empty());
            lemma_tail_absorbs(self.buffer@, Seq::<u8>::empty());
            assert(start_kept + chunk@.take(0) =~= start_kept);
            assert(self.buffer@ + Seq::<u8>::empty() =~= self.buffer@);
        }
        let mut i: usize = 0;
        while i < chunk.len()
            invariant
                i <= chunk.len(),
                self.wf(),
                self.kept() == capture_tail(start_kept + chunk@.take(i as int)),
                (self.dropped || self.buffer@.len() > MAX_CAPTURE_BYTES) == (start_trunc || start_kept.len() + i > MAX_CAPTURE_BYTES),
                !self.dropped && !start_trunc ==> self.buffer@.len() == start_kept.len() + i,
            decreases chunk.len() - i,
        {
            let ghost prev = self.buffer@;
            self.buffer.push(chunk[i]);
            proof {
                lemma_tail_absorbs(prev, seq![chunk@[i as int]]);
                lemma_tail_absorbs(start_kept + chunk@.take(i as int), seq![chunk@[i as int]]);
                assert(prev + seq![chunk@[i as int]] =~= self.buffer@);
                assert(start_kept + chunk@.take(i + 1) =~= (start_kept + chunk@.take(i as int)) + seq![chunk@[i as int]]);
            }
            if self.buffer.len() > 2 * MAX_CAPTURE_BYTES {
                let len = self.buffer.len();
                let start = len - MAX_CAPTURE_BYTES;
                let mut tail: Vec<u8> = Vec::new();
                let mut k = start;
                while k < len
                    invariant
                        start <= k <= len,
                        len == self.buffer@.len(),
                        tail@ == self.buffer@.subrange(start as int, k as int),
                    decreases len - k,
                {
                    tail.push(self.buffer[k]);
                    assert(self.buffer@.subrange(start as int, k + 1) == self.buffer@.subrange(start as int, k as int).push(self.buffer@[k as int]));
                    k = k + 1;
                }
                proof {
                    assert(tail@ == capture_tail(self.buffer@));
                    lemma_tail_absorbs(self.buffer@, Seq::<u8>::empty());
                    assert(self.buffer@ + Seq::<u8>::empty() =~= self.buffer@);
                    assert(tail@ + Seq::<u8>::empty() =~= tail@);
                }
                self.buffer = tail;
                self.dropped = true;
            }
            i = i + 1;
        }
        assert(chunk@.take(chunk.len() as int) == chunk@);
    }

    /// The kept bytes: never more than `MAX_CAPTURE_BYTES`.
    pub fn bytes(&self) -> (r: Vec<u8>)
        requires
            self.wf(),
        ensures
            r@ == self.kept(),
            r@.len() <= MAX_CAPTURE_BYTES,
    {
        let len = self.buffer.len();
        let start = if len > MAX_CAPTURE_BYTES { len - MAX_CAPTURE_BYTES } else { 0 };
        let mut out: Vec<u8> = Vec::new();
        let mut k = start;
        while k < len
            invariant
                start <= k <= len,
                len == self.buffer@.len(),
                out@ == self.buffer@.subrange(start as int, k as int),
            decreases len - k,
        {
            out.push(self.buffer[k]);
            assert(self.buffer@.subrange(start as int, k + 1) == self.buffer@.subrange(start as int, k as int).push(self.buffer@[k as int]));
            k = k + 1;
        }
        assert(self.buffer@.subrange(0, len as int) == self.buffer@);
        out
    }

    pub fn truncated(&self) -> (r: bool)
        ensures
            r == self.was_truncated(),
    {
        self.dropped || self.buffer.len() > MAX_CAPTURE_BYTES
    }
}


/// What `String::from_utf8_lossy` makes of a byte sequence.
pub uninterp spec fn utf8_lossy(bytes: Seq<u8>) -> Seq<char>;

/// Decodes bytes as UTF-8, replacing invalid sequences.
///
/// Trusted: calls `String::from_utf8_lossy`. Its result is named
/// `utf8_lossy`; std documents that valid UTF-8 decodes unchanged, which is
/// stated. What replaces invalid sequences is not stated.
#[verifier::external_body]
pub(crate) fn decode_utf8_lossy(bytes: &[u8]) -> (r: String)
    ensures
        r@ == utf8_lossy(bytes@),
        vstd::utf8::valid_utf8(bytes@) ==> r@ == vstd::utf8::decode_utf8(bytes@),
{
    String::from_utf8_lossy(bytes).into_owned()
}

/// The notice put before captured output whose older part was dropped.
pub open spec fn truncation_notice() -> Seq<char> {
    "[较早的命令输出已截断]"@
}

/// The output of a run: stdout, a newline when both streams printed
/// something, stderr; decoded, trimmed, and preceded by a notice when either
/// stream dropped older bytes.
pub open spec fn combined_output(out: Seq<u8>, out_truncated: bool, err: Seq<u8>, err_truncated: bool) -> Seq<char> {
    let bytes = if out.len() > 0 && err.len() > 0 { out.push(10u8) + err } else { out + err };
    let text = trim(utf8_lossy(bytes));
    if out_truncated || err_truncated {
        if text.len() == 0 {
            truncation_notice()
        } else {
            truncation_notice().push('\n') + text
        }
    } else {
        text
    }
}

/// Joins the two captured streams of a run into its output.
pub fn combine_capture(stdout: &PipeCapture, stderr: &PipeCapture) -> (r: String)
    requires
        stdout.wf(),
        stderr.wf(),
    ensures
        r@ == combined_output(stdout.kept(), stdout.was_truncated(), stderr.kept(), stderr.was_truncated()),
{
    let truncated = stdout.truncated() || stderr.truncated();
    let mut bytes = stdout.bytes();
    let err = stderr.bytes();
    if bytes.len() > 0 && err.len() > 0 {
        bytes.push(10u8);
    }
    let ghost head = bytes@;
    let mut i: usize = 0;
    while i < err.len()
        invariant
            i <= err.len(),
            bytes@ == head + err@.take(i as int),
        decreases err.len() - i,
    {
        bytes.push(err[i]);
        assert(err@.take(i + 1) == err@.take(i as int).push(err@[i as int]));
        i = i + 1;
    }
    assert(err@.take(err.len() as int) == err@);
    let decoded = decode_utf8_lossy(bytes.as_slice());
    let text = trim_chars(chars_of(decoded.as_str()).as_slice());
    if truncated {
        let mut out = "[较早的命令输出已截断]".to_owned();
        if text.len() > 0 {
            crate::text::push_char(&mut out, '\n');
            let rest = string_of(text.as_slice());
            out.append(rest.as_str());
        }
        out
    } else {
        string_of(text.as_slice())
    }
}

/// What the command runner learns when it polls the running child.
pub enum WaitObservation {
    /// The child exited, with this code when it has one.
    Exited(Option<i32>),
    /// The child is still running.
    Running,
    /// Polling failed, with this message.
    Failed(String),
}

/// What the command runner does after a poll.
pub enum WaitStep {
    /// The child has exited: collect its output.
    Finish(Option<i32>),
    /// Kill the process tree and end the run in this state, with this note.
    Terminate(CommandState, String),
    /// Poll again after a short sleep.
    Sleep,
}

pub open spec fn timeout_note(timeout_secs: u64) -> Seq<char> {
    "执行超时（"@ + decimal(timeout_secs as nat) + " 秒），进程树已终止"@
}

/// One decision of the command runner's wait loop: an exited child is
/// finished; a running one is stopped when the run was cancelled or has
/// used up its timeout, and otherwise polled again; a failed poll ends the run.
pub fn wait_step(observation: WaitObservation, cancelled: bool, elapsed_ms: u64, timeout_secs: u64) -> (r: WaitStep)
    ensures
        match observation {
            WaitObservation::Exited(code) => r == WaitStep::Finish(code),
            WaitObservation::Running => if cancelled {
                r matches WaitStep::Terminate(state, note) && state == CommandState::Cancelled && note@ == "操作已取消"@
            } else if elapsed_ms / 1000 >= timeout_secs {
                r matches WaitStep::Terminate(state, note) && state == CommandState::TimedOut && note@ == timeout_note(timeout_secs)
            } else {
                r is Sleep
            },
            WaitObservation::Failed(message) => r matches WaitStep::Terminate(state, note)
                && state == CommandState::WaitFailed && note@ == message@,
        },
{
    match observation {
        WaitObservation::Exited(code) => WaitStep::Finish(code),
        WaitObservation::Running => {
            if cancelled {
                WaitStep::Terminate(CommandState::Cancelled, "操作已取消".to_owned())
            } else if elapsed_ms / 1000 >= timeout_secs {
                let mut note = "执行超时（".to_owned();
                let digits = decimal_string(timeout_secs);
                note.append(digits.as_str());
                note.append(" 秒），进程树已终止");
                WaitStep::Terminate(CommandState::TimedOut, note)
            } else {
                WaitStep::Sleep
            }
        },
        WaitObservation::Failed(message) => WaitStep::Terminate(CommandState::WaitFailed, message),
    }
}

/// The result of a run: its end state and exit code, the joined output of
/// its streams, and the wait loop's note (if any) on a line of its own.
pub fn finish_command(
    state: CommandState,
    exit_code: Option<i32>,
    stdout: &PipeCapture,
    stderr: &PipeCapture,
    note: Option<String>,
) -> (r: CommandResult)
    requires
        stdout.wf(),
        stderr.wf(),
    ensures
        r.state == state,
        r.exit_code == exit_code,
        r.output@ == {
            let out = combined_output(stdout.kept(), stdout.was_truncated(), stderr.kept(), stderr.was_truncated());
            match note {
                None => out,
                Some(n) => if out.len() == 0 { n@ } else { out.push('\n') + n@ },
            }
        },
{
    let mut output = combine_capture(stdout, stderr);
    match note {
        Some(n) => {
            if !output.as_str().is_empty() {
                crate::text::push_char(&mut output, '\n');
            }
            output.append(n.as_str());
        },
        None => {},
    }
    CommandResult { state, exit_code, output }
}

/// The kind of a log line.
#[derive(Debug, Clone, Copy, PartialEq, Eq, Structural)]
pub enum LogLevel {
    Info,
    Success,
    Warn,
    Error,
    Start,
    End,
}

/// The tag by which exported logs name a level.
pub open spec fn level_tag_of(level: LogLevel) -> Seq<char> {
    match level {
        LogLevel::Info => "INFO"@,
        LogLevel::Success => "OK"@,
        LogLevel::Warn => "WARN"@,
        LogLevel::Error => "ERROR"@,
        LogLevel::Start => "START"@,
        LogLevel::End => "END"@,
    }
}

/// One line of the deployment log.
#[derive(Debug, Clone)]
pub struct LogMessage {
    pub time: String,
    pub level: LogLevel,
    pub message: String,
}

pub open spec fn is_ascii_digit(c: char) -> bool {
    '0' <= c && c <= '9'
}

/// The number written by the two digits at `i` and `i + 1`.
pub open spec fn two_digits(t: Seq<char>, i: int) -> int {
    ((t[i] as int) - ('0' as int)) * 10 + ((t[i + 1] as int) - ('0' as int))
}

/// A wall-clock time written `HH:MM:SS`: an hour below 24, a minute below
/// 60, and a second up to 60 (a leap second).
pub open spec fn is_clock_time(t: Seq<char>) -> bool {
    &&& t.len() == 8
    &&& t[2] == ':' && t[5] == ':'
    &&& forall|i: int| 0 <= i < 8 && i != 2 && i != 5 ==> is_ascii_digit(#[trigger] t[i])
    &&& two_digits(t, 0) < 24 && two_digits(t, 3) < 60 && two_digits(t, 6) <= 60
}

/// The local wall-clock time as `HH:MM:SS`.
///
/// Trusted: calls chrono's `Local::now` and formats it with `"%H:%M:%S"`,
/// whose fields chrono documents as zero-padded two-digit numbers: the hour
/// 00 to 23, the minute 00 to 59, the second 00 to 60. Which time it is, the
/// machine decides, so only that shape is stated.
#[verifier::external_body]
fn clock_time() -> (r: String)
    ensures
        is_clock_time(r@),
{
    chrono::Local::now().format("%H:%M:%S").to_string()
}

impl LogMessage {
    /// A log line stamped with the current local time.
    pub fn new(level: LogLevel, message: String) -> (r: LogMessage)
        ensures
            r.level == level,
            r.message == message,
            is_clock_time(r.time@),
    {
        LogMessage { time: clock_time(), level, message }
    }

    /// The tag by which exported logs name the level.
    pub fn level_tag(&self) -> (r: &'static str)
        ensures
            r@ == level_tag_of(self.level),
    {
        match self.level {
            LogLevel::Info => "INFO",
            LogLevel::Success => "OK",
            LogLevel::Warn => "WARN",
            LogLevel::Error => "ERROR",
            LogLevel::Start => "START",
            LogLevel::End => "END",
        }
    }
}

/// A log line as the exported log file holds it: `[time] [TAG] message`
/// and a newline.
pub open spec fn export_line(m: LogMessage) -> Seq<char> {
    "["@ + m.time@ + "] ["@ + level_tag_of(m.level) + "] "@ + m.message@ + "\n"@
}

/// The exported log: each line in turn.
pub open spec fn export_text_of(logs: Seq<LogMessage>) -> Seq<char>
    decreases logs.len(),
{
    if logs.len() == 0 {
        Seq::empty()
    } else {
        export_text_of(logs.drop_last()) + export_line(logs.last())
    }
}

/// The text of the exported log file.
pub fn export_text(logs: &Vec<LogMessage>) -> (r: String)
    ensures
        r@ == export_text_of(logs@),
{
    let mut out = String::new();
    let mut i: usize = 0;
    while i < logs.len()
        invariant
            i <= logs.len(),
            out@ == export_text_of(logs@.take(i as int)),
        decreases logs.len() - i,
    {
        let log = &logs[i];
        out.append("[");
        out.append(log.time.as_str());
        out.append("] [");
        out.append(log.level_tag());
        out.append("] ");
        out.append(log.message.as_str());
        out.append("\n");
        assert(logs@.take(i + 1).drop_last() =~= logs@.take(i as int));
        i = i + 1;
    }
    assert(logs@.take(logs.len() as int) =~= logs@);
    out
}

} // verus!
