//! A setup run as the GUI follows it: its state, how the worker's events
//! move it along, and the log the user reads.
use vstd::prelude::*;
use crate::config::ExecutionTarget;
use crate::config::spec_requires_admin;
use crate::text::decimal;
use crate::utils::{LogLevel, LogMessage};

verus! {

/// How a setup run ended.
#[derive(Debug, Clone, Copy, PartialEq, Eq, Structural)]
pub enum SetupOutcome {
    /// Every step succeeded.
    Succeeded,
    /// The worker finished, but some steps failed.
    CompletedWithErrors,
    /// The user cancelled; the running process tree was stopped.
    Cancelled,
    /// The worker panicked or its event channel broke.
    Crashed,
}

/// The end of a setup run.
#[derive(Debug, Clone, Copy, PartialEq, Eq, Structural)]
pub struct SetupSummary {
    pub outcome: SetupOutcome,
    pub errors: usize,
    pub warnings: usize,
    pub elapsed_ms: u64,
}

/// Where a setup run stands.
#[derive(Debug, Clone, Copy, PartialEq, Eq, Structural)]
pub enum RunState {
    Idle,
    Running,
    Cancelling,
    Finished(SetupSummary),
}

/// What the worker reports while it runs.
#[derive(Debug, Clone)]
pub enum SetupEvent {
    Log(LogMessage),
    Finished(SetupSummary),
}

/// What a request to start a run comes to.
#[derive(Debug, Clone, PartialEq, Eq)]
pub enum StartDecision {
    /// A run is already going: nothing happens.
    AlreadyRunning,
    /// The run may not start; the message says why.
    Refuse(String),
    /// The run may start, once the edited profile is accepted.
    Proceed,
}

/// How many log lines the GUI keeps (the newest ones).
pub const MAX_LOG_LINES: usize = 8000;

pub open spec fn outcome_label(o: SetupOutcome) -> Seq<char> {
    match o {
        SetupOutcome::Succeeded => "已完成"@,
        SetupOutcome::CompletedWithErrors => "完成但有失败项"@,
        SetupOutcome::Cancelled => "已取消"@,
        SetupOutcome::Crashed => "异常终止"@,
    }
}

/// A run is under way: started, or asked to cancel and not yet ended.
pub open spec fn is_active(s: RunState) -> bool {
    s is Running || s is Cancelling
}

pub open spec fn state_label(s: RunState) -> Seq<char> {
    match s {
        RunState::Idle => "准备就绪"@,
        RunState::Running => "正在部署"@,
        RunState::Cancelling => "正在取消"@,
        RunState::Finished(summary) => outcome_label(summary.outcome),
    }
}

/// The summary given to a run whose worker vanished without reporting an end.
pub open spec fn crashed_summary(elapsed_ms: u64) -> SetupSummary {
    SetupSummary { outcome: SetupOutcome::Crashed, errors: 0, warnings: 0, elapsed_ms }
}

/// The log lines among the events, in order.
pub open spec fn event_logs(events: Seq<SetupEvent>) -> Seq<LogMessage>
    decreases events.len(),
{
    if events.len() == 0 {
        Seq::empty()
    } else {
        match events.last() {
            SetupEvent::Log(m) => event_logs(events.drop_last()).push(m),
            SetupEvent::Finished(_) => event_logs(events.drop_last()),
        }
    }
}

/// The summary of the last end among the events, if any.
pub open spec fn last_summary(events: Seq<SetupEvent>) -> Option<SetupSummary>
    decreases events.len(),
{
    if events.len() == 0 {
        None
    } else {
        match events.last() {
            SetupEvent::Finished(s) => Some(s),
            SetupEvent::Log(_) => last_summary(events.drop_last()),
        }
    }
}

/// The newest `MAX_LOG_LINES` lines.
pub open spec fn kept_logs(all: Seq<LogMessage>) -> Seq<LogMessage> {
    if all.len() > MAX_LOG_LINES {
        all.skip(all.len() - MAX_LOG_LINES)
    } else {
        all
    }
}

/// The run vanished: the event channel broke while a run was under way and
/// no end was reported.
pub open spec fn worker_lost(state: RunState, events: Seq<SetupEvent>, disconnected: bool) -> bool {
    disconnected && is_active(state) && last_summary(events) is None
}

pub open spec fn lost_worker_message() -> Seq<char> {
    "部署线程失联；GUI 已退出运行态，请查看最后一条日志。"@
}

pub open spec fn cancel_message() -> Seq<char> {
    "已请求取消；正在终止当前子进程树…"@
}

pub open spec fn admin_message() -> Seq<char> {
    "该任务需要管理员权限；请关闭程序并以管理员身份重新运行。"@
}

/// The status line under the progress bar.
pub open spec fn status_line_of(s: RunState) -> Seq<char> {
    match s {
        RunState::Finished(summary) => outcome_label(summary.outcome) + " · "@ + decimal(summary.errors as nat)
            + " 失败 · "@ + decimal(summary.warnings as nat) + " 警告"@,
        _ => state_label(s),
    }
}

impl SetupOutcome {
    /// The name under which the GUI shows the outcome.
    pub fn label(self) -> (r: &'static str)
        ensures
            r@ == outcome_label(self),
    {
        match self {
            SetupOutcome::Succeeded => "已完成",
            SetupOutcome::CompletedWithErrors => "完成但有失败项",
            SetupOutcome::Cancelled => "已取消",
            SetupOutcome::Crashed => "异常终止",
        }
    }
}

impl SetupSummary {
    /// The summary given to a run whose worker vanished without reporting an end.
    pub fn crashed(elapsed_ms: u64) -> (r: SetupSummary)
        ensures
            r == crashed_summary(elapsed_ms),
    {
        SetupSummary { outcome: SetupOutcome::Crashed, errors: 0, warnings: 0, elapsed_ms }
    }
}

impl RunState {
    /// A run is under way: started, or asked to cancel and not yet ended.
    pub fn active(&self) -> (r: bool)
        ensures
            r == is_active(*self),
    {
        match self {
            RunState::Running | RunState::Cancelling => true,
            _ => false,
        }
    }

    /// The name under which the GUI shows the state.
    pub fn label(&self) -> (r: &'static str)
        ensures
            r@ == state_label(*self),
    {
        match self {
            RunState::Idle => "准备就绪",
            RunState::Running => "正在部署",
            RunState::Cancelling => "正在取消",
            RunState::Finished(summary) => summary.outcome.label(),
        }
    }
}

/// Whether a run may start: not while one is under way; not while the Mac
/// inventory is unusable (its error is the reason); not for a target that
/// needs administrator rights when the program has none.
pub fn start_decision(
    state: &RunState,
    inventory_error: &Option<String>,
    target: ExecutionTarget,
    admin: bool,
) -> (r: StartDecision)
    ensures
        is_active(*state) ==> r == StartDecision::AlreadyRunning,
        !is_active(*state) ==> match inventory_error {
            Some(e) => r matches StartDecision::Refuse(m) && m@ == e@,
            None => if spec_requires_admin(target) && !admin {
                r matches StartDecision::Refuse(m) && m@ == admin_message()
            } else {
                r == StartDecision::Proceed
            },
        },
{
    if state.active() {
        return StartDecision::AlreadyRunning;
    }
    match inventory_error {
        Some(e) => StartDecision::Refuse(e.clone()),
        None => {
            if target.requires_admin() && !admin {
                StartDecision::Refuse("该任务需要管理员权限；请关闭程序并以管理员身份重新运行。".to_owned())
            } else {
                StartDecision::Proceed
            }
        },
    }
}

/// A run starts: its state is `Running` and the log starts empty.
pub fn begin_run(state: &mut RunState, logs: &mut Vec<LogMessage>)
    ensures
        *final(state) == RunState::Running,
        final(logs)@.len() == 0,
{
    *state = RunState::Running;
    logs.clear();
}

/// The user asks to cancel the run the worker is doing: the state becomes
/// `Cancelling` and a warning is logged. Without a worker to cancel nothing
/// changes.
pub fn request_cancel(state: &mut RunState, logs: &mut Vec<LogMessage>, has_worker: bool)
    ensures
        has_worker ==> *final(state) == RunState::Cancelling,
        has_worker ==> final(logs)@.len() == old(logs)@.len() + 1,
        has_worker ==> final(logs)@.drop_last() == old(logs)@,
        has_worker ==> final(logs)@.last().level == LogLevel::Warn,
        has_worker ==> final(logs)@.last().message@ == cancel_message(),
        !has_worker ==> *final(state) == *old(state) && final(logs)@ == old(logs)@,
{
    if has_worker {
        *state = RunState::Cancelling;
        let message = LogMessage::new(LogLevel::Warn, "已请求取消；正在终止当前子进程树…".to_owned());
        logs.push(message);
    }
}

/// Keeps only the newest `MAX_LOG_LINES` lines.
pub fn trim_logs(logs: &mut Vec<LogMessage>)
    ensures
        final(logs)@ == kept_logs(old(logs)@),
{
    if logs.len() > MAX_LOG_LINES {
        let tail = logs.split_off(logs.len() - MAX_LOG_LINES);
        *logs = tail;
    }
}

/// Takes in what the worker reported since the last look: the log lines are
/// appended and the log cut to its newest `MAX_LOG_LINES` lines; a reported
/// end finishes the run with its summary. When the channel broke while a run
/// was under way and no end came, the run finishes as crashed and an error is
/// logged. Says whether the run finished. Whatever happens, a broken channel
/// never leaves the run under way.
pub fn absorb_events(
    state: &mut RunState,
    logs: &mut Vec<LogMessage>,
    events: Vec<SetupEvent>,
    disconnected: bool,
) -> (finished: bool)
    ensures
        finished == (last_summary(events@) is Some || worker_lost(*old(state), events@, disconnected)),
        match last_summary(events@) {
            Some(s) => *final(state) == RunState::Finished(s),
            None => if worker_lost(*old(state), events@, disconnected) {
                *final(state) == RunState::Finished(crashed_summary(0))
            } else {
                *final(state) == *old(state)
            },
        },
        !worker_lost(*old(state), events@, disconnected)
            ==> final(logs)@ == kept_logs(old(logs)@ + event_logs(events@)),
        worker_lost(*old(state), events@, disconnected) ==> {
            &&& final(logs)@.len() == kept_logs(old(logs)@ + event_logs(events@)).len() + 1
            &&& final(logs)@.drop_last() == kept_logs(old(logs)@ + event_logs(events@))
            &&& final(logs)@.last().level == LogLevel::Error
            &&& final(logs)@.last().message@ == lost_worker_message()
        },
        disconnected ==> !is_active(*final(state)),
{
    let ghost orig = events@;
    let ghost start_state = *state;
    let ghost start_logs = logs@;
    let mut events = events;
    let total: usize = events.len();
    assert(orig.len() == total);
    let mut seen_end = false;
    let mut k: usize = 0;
    while events.len() > 0
        invariant
            k <= orig.len() <= usize::MAX,
            events@ == orig.skip(k as int),
            logs@ == start_logs + event_logs(orig.take(k as int)),
            seen_end == (last_summary(orig.take(k as int)) is Some),
            match last_summary(orig.take(k as int)) {
                Some(s) => *state == RunState::Finished(s),
                None => *state == start_state,
            },
        decreases events.len(),
    {
        let event = events.remove(0);
        proof {
            assert(orig.take(k + 1).drop_last() == orig.take(k as int));
            assert(orig.take(k + 1).last() == orig[k as int]);
            assert(orig.skip(k + 1) == orig.skip(k as int).subrange(1, orig.skip(k as int).len() as int));
        }
        match event {
            SetupEvent::Log(message) => {
                logs.push(message);
            },
            SetupEvent::Finished(summary) => {
                *state = RunState::Finished(summary);
                seen_end = true;
            },
        }
        k = k + 1;
    }
    proof {
        assert(orig.take(k as int) == orig);
    }
    trim_logs(logs);
    if disconnected && state.active() && !seen_end {
        let message = LogMessage::new(LogLevel::Error, "部署线程失联；GUI 已退出运行态，请查看最后一条日志。".to_owned());
        logs.push(message);
        *state = RunState::Finished(SetupSummary::crashed(0));
        return true;
    }
    seen_end
}

/// The status line under the progress bar: the state's name, and for a
/// finished run its failure and warning counts.
pub fn status_line(state: &RunState) -> (r: String)
    ensures
        r@ == status_line_of(*state),
{
    match state {
        RunState::Finished(summary) => {
            let mut out = summary.outcome.label().to_owned();
            out.append(" · ");
            out.append(crate::text::decimal_string(summary.errors as u64).as_str());
            out.append(" 失败 · ");
            out.append(crate::text::decimal_string(summary.warnings as u64).as_str());
            out.append(" 警告");
            out
        },
        _ => state.label().to_owned(),
    }
}

/// Whether the run button is held back: the target needs administrator
/// rights the program lacks, the Mac inventory is unusable or being
/// refreshed, or no plan can be made.
pub fn run_blocked(
    target: ExecutionTarget,
    admin: bool,
    inventory_error: &Option<String>,
    refreshing_inventory: bool,
    plan_error: &Option<String>,
) -> (r: bool)
    ensures
        r == ((spec_requires_admin(target) && !admin) || inventory_error is Some || refreshing_inventory
            || plan_error is Some),
{
    (target.requires_admin() && !admin) || inventory_error.is_some() || refreshing_inventory || plan_error.is_some()
}

/// The run button's caption.
pub fn run_button_label(blocked: bool) -> (r: &'static str)
    ensures
        r@ == (if blocked { "需要管理员权限"@ } else { "应用这份计划"@ }),
{
    if blocked { "需要管理员权限" } else { "应用这份计划" }
}

} // verus!
