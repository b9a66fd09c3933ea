use ltsc_workspace::utils::{
    combine_capture, export_text, finish_command, last_line, wait_step, CommandResult, CommandState, LogLevel,
    LogMessage, PipeCapture, WaitObservation, WaitStep, MAX_CAPTURE_BYTES,
};

#[test]
fn diagnostics_are_the_last_line() {
    assert_eq!(last_line("  first\nsecond line \n\n"), "second line");
    assert_eq!(last_line(" \n "), "无诊断输出");
    let result = CommandResult { state: CommandState::Exited, exit_code: Some(3010), output: "done\n".into() };
    assert!(!result.succeeded());
    assert!(result.succeeded_or_reboot_required());
    assert_eq!(result.diagnostic(), "done");
    assert!(CommandResult::cancelled_before_start().cancelled());
    assert_eq!(CommandResult::spawn_failed("git", "not found").output, "无法启动 git: not found");
}

#[test]
fn capture_keeps_the_newest_bytes() {
    let mut capture = PipeCapture::new();
    capture.extend(&vec![b'a'; MAX_CAPTURE_BYTES]);
    assert!(!capture.truncated());
    capture.extend(b"tail");
    assert!(capture.truncated());
    let bytes = capture.bytes();
    assert_eq!(bytes.len(), MAX_CAPTURE_BYTES);
    assert!(bytes.ends_with(b"atail"));
}

#[test]
fn streams_are_joined_and_noted() {
    let mut out = PipeCapture::new();
    out.extend(b"  hello\n");
    let mut err = PipeCapture::new();
    err.extend(b"warn  \n");
    assert_eq!(combine_capture(&out, &err), "hello\n\nwarn");
    let result = finish_command(CommandState::TimedOut, None, &out, &PipeCapture::new(), Some("note".into()));
    assert_eq!(result.output, "hello\nnote");
    assert_eq!(result.state, CommandState::TimedOut);

    let mut big = PipeCapture::new();
    big.extend(&vec![b'x'; MAX_CAPTURE_BYTES + 1]);
    assert!(combine_capture(&big, &PipeCapture::new()).starts_with("[较早的命令输出已截断]\nx"));
}

#[test]
fn the_wait_loop_decides() {
    assert!(matches!(wait_step(WaitObservation::Exited(Some(0)), true, 0, 5), WaitStep::Finish(Some(0))));
    assert!(matches!(wait_step(WaitObservation::Running, false, 4_999, 5), WaitStep::Sleep));
    match wait_step(WaitObservation::Running, false, 5_000, 5) {
        WaitStep::Terminate(state, note) => {
            assert_eq!(state, CommandState::TimedOut);
            assert_eq!(note, "执行超时（5 秒），进程树已终止");
        }
        _ => panic!("expected a timeout"),
    }
    match wait_step(WaitObservation::Running, true, 0, 5) {
        WaitStep::Terminate(state, note) => {
            assert_eq!(state, CommandState::Cancelled);
            assert_eq!(note, "操作已取消");
        }
        _ => panic!("expected a cancellation"),
    }
    match wait_step(WaitObservation::Failed("lost".into()), false, 0, 5) {
        WaitStep::Terminate(state, note) => {
            assert_eq!(state, CommandState::WaitFailed);
            assert_eq!(note, "lost");
        }
        _ => panic!("expected a failure"),
    }
}

#[test]
fn log_lines_carry_their_level() {
    let line = LogMessage::new(LogLevel::Success, "ok".into());
    assert_eq!(line.level_tag(), "OK");
    let time: Vec<char> = line.time.chars().collect();
    assert_eq!(time.len(), 8);
    assert_eq!((time[2], time[5]), (':', ':'));
    assert!(time.iter().enumerate().all(|(i, c)| i == 2 || i == 5 || c.is_ascii_digit()));
    let number = |i: usize| time[i].to_digit(10).unwrap() * 10 + time[i + 1].to_digit(10).unwrap();
    assert!(number(0) < 24 && number(3) < 60 && number(6) <= 60);
}

#[test]
fn exported_log_has_one_tagged_line_per_entry() {
    let logs = vec![
        LogMessage { time: "09:00:01".into(), level: LogLevel::Start, message: "开始".into() },
        LogMessage { time: "09:00:02".into(), level: LogLevel::Error, message: "failed".into() },
    ];
    assert_eq!(export_text(&logs), "[09:00:01] [START] 开始\n[09:00:02] [ERROR] failed\n");
    assert_eq!(export_text(&Vec::new()), "");
}
