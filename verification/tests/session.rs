use ltsc_workspace::config::ExecutionTarget;
use ltsc_workspace::session::{
    absorb_events, begin_run, request_cancel, run_blocked, run_button_label, start_decision, status_line, trim_logs, RunState,
    SetupEvent, SetupOutcome, SetupSummary, StartDecision, MAX_LOG_LINES,
};
use ltsc_workspace::utils::{LogLevel, LogMessage};

fn log(message: &str) -> LogMessage {
    LogMessage::new(LogLevel::Info, message.to_string())
}

fn summary(outcome: SetupOutcome) -> SetupSummary {
    SetupSummary { outcome, errors: 2, warnings: 1, elapsed_ms: 12_000 }
}

#[test]
fn states_have_labels() {
    assert_eq!(RunState::Idle.label(), "准备就绪");
    assert_eq!(RunState::Running.label(), "正在部署");
    assert_eq!(RunState::Cancelling.label(), "正在取消");
    assert_eq!(RunState::Finished(summary(SetupOutcome::Succeeded)).label(), "已完成");
    assert_eq!(SetupOutcome::CompletedWithErrors.label(), "完成但有失败项");
    assert_eq!(SetupOutcome::Cancelled.label(), "已取消");
    assert_eq!(SetupOutcome::Crashed.label(), "异常终止");
    assert!(RunState::Running.active() && RunState::Cancelling.active());
    assert!(!RunState::Idle.active());
    assert!(!RunState::Finished(summary(SetupOutcome::Crashed)).active());
}

#[test]
fn a_reported_end_finishes_the_run() {
    let mut state = RunState::Running;
    let mut logs = vec![log("before")];
    let events = vec![
        SetupEvent::Log(log("step 1")),
        SetupEvent::Finished(summary(SetupOutcome::CompletedWithErrors)),
        SetupEvent::Log(log("after end")),
    ];
    assert!(absorb_events(&mut state, &mut logs, events, false));
    assert_eq!(state, RunState::Finished(summary(SetupOutcome::CompletedWithErrors)));
    let messages: Vec<&str> = logs.iter().map(|l| l.message.as_str()).collect();
    assert_eq!(messages, ["before", "step 1", "after end"]);
}

#[test]
fn a_lost_worker_never_leaves_the_run_under_way() {
    let mut state = RunState::Cancelling;
    let mut logs = Vec::new();
    assert!(absorb_events(&mut state, &mut logs, vec![SetupEvent::Log(log("x"))], true));
    assert_eq!(state, RunState::Finished(SetupSummary::crashed(0)));
    assert_eq!(logs.len(), 2);
    assert_eq!(logs[1].level, LogLevel::Error);
    assert_eq!(logs[1].message, "部署线程失联；GUI 已退出运行态，请查看最后一条日志。");

    let mut idle = RunState::Idle;
    let mut logs = Vec::new();
    assert!(!absorb_events(&mut idle, &mut logs, Vec::new(), true));
    assert_eq!(idle, RunState::Idle);
    assert!(logs.is_empty());

    let mut running = RunState::Running;
    let mut logs = Vec::new();
    assert!(!absorb_events(&mut running, &mut logs, Vec::new(), false));
    assert_eq!(running, RunState::Running);
}

#[test]
fn the_log_keeps_its_newest_lines() {
    let mut logs: Vec<LogMessage> = (0..MAX_LOG_LINES + 5).map(|i| log(&i.to_string())).collect();
    trim_logs(&mut logs);
    assert_eq!(logs.len(), MAX_LOG_LINES);
    assert_eq!(logs[0].message, "5");
    assert_eq!(logs[MAX_LOG_LINES - 1].message, (MAX_LOG_LINES + 4).to_string());
}

#[test]
fn starting_and_cancelling() {
    let none: Option<String> = None;
    assert_eq!(start_decision(&RunState::Running, &none, ExecutionTarget::DevToolsOnly, false), StartDecision::AlreadyRunning);
    assert_eq!(
        start_decision(&RunState::Idle, &Some("清单无效".into()), ExecutionTarget::DevToolsOnly, true),
        StartDecision::Refuse("清单无效".into())
    );
    assert_eq!(
        start_decision(&RunState::Idle, &none, ExecutionTarget::FullSetup, false),
        StartDecision::Refuse("该任务需要管理员权限；请关闭程序并以管理员身份重新运行。".into())
    );
    assert_eq!(start_decision(&RunState::Idle, &none, ExecutionTarget::DevToolsOnly, false), StartDecision::Proceed);

    let mut state = RunState::Idle;
    let mut logs = vec![log("old")];
    begin_run(&mut state, &mut logs);
    assert_eq!(state, RunState::Running);
    assert!(logs.is_empty());
    request_cancel(&mut state, &mut logs, true);
    assert_eq!(state, RunState::Cancelling);
    assert_eq!(logs[0].level, LogLevel::Warn);
    assert_eq!(logs[0].message, "已请求取消；正在终止当前子进程树…");

    let mut idle = RunState::Idle;
    let mut logs = Vec::new();
    request_cancel(&mut idle, &mut logs, false);
    assert_eq!(idle, RunState::Idle);
    assert!(logs.is_empty());
}

#[test]
fn status_line_shows_counts_for_finished_runs() {
    assert_eq!(status_line(&RunState::Finished(summary(SetupOutcome::CompletedWithErrors))), "完成但有失败项 · 2 失败 · 1 警告");
    assert_eq!(status_line(&RunState::Running), "正在部署");
}

#[test]
fn the_run_button_is_held_back_until_a_run_can_start() {
    let none: Option<String> = None;
    let some = Some("x".to_string());
    assert!(!run_blocked(ExecutionTarget::FullSetup, true, &none, false, &none));
    assert!(run_blocked(ExecutionTarget::FullSetup, false, &none, false, &none));
    assert!(!run_blocked(ExecutionTarget::DevToolsOnly, false, &none, false, &none));
    assert!(run_blocked(ExecutionTarget::DevToolsOnly, true, &some, false, &none));
    assert!(run_blocked(ExecutionTarget::DevToolsOnly, true, &none, true, &none));
    assert!(run_blocked(ExecutionTarget::DevToolsOnly, true, &none, false, &some));
    assert_eq!(run_button_label(true), "需要管理员权限");
    assert_eq!(run_button_label(false), "应用这份计划");
}
