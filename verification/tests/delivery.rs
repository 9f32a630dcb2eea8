use martty::delivery::{RunChrome, RunEvent};
use martty::modes::RunState;

#[test]
fn a_harness_switch_shows_until_the_connection_is_ready() {
    let mut c = RunChrome::new();
    let e = c.step(RunEvent::Starting { harness: true }, false);
    assert!(e.notice.is_none());
    assert!(c.switching());
    assert_eq!((c.state, c.note.as_str(), c.timing), (RunState::Starting, "switching Harness", true));
    c.step(RunEvent::Initialized { server: "crow".into() }, false);
    assert_eq!(c.server.as_deref(), Some("crow"));
    c.step(RunEvent::Ready { server: "crow-cli".into() }, false);
    assert!(!c.switching());
    assert_eq!((c.state, c.note.as_str(), c.timing), (RunState::Idle, "", false));
    c.step(RunEvent::Starting { harness: false }, false);
    assert_eq!(c.note, "starting runtime");
    assert!(!c.switching());
}

#[test]
fn a_prompt_goes_from_starting_to_running() {
    let mut c = RunChrome::new();
    c.step(RunEvent::PromptSent, false);
    assert_eq!((c.state, c.prompt_pending), (RunState::Starting, true));
    c.step(RunEvent::Ready { server: "s".into() }, false);
    assert_eq!(c.state, RunState::Starting, "a pending prompt keeps the start");
    c.step(RunEvent::PromptQueued, false);
    assert_eq!((c.state, c.prompt_pending), (RunState::Running, false));
    let e = c.step(RunEvent::CancelRequested, false);
    assert!(e.cancel_work);
    assert_eq!(c.note, "cancelling");
    let e = c.step(RunEvent::Interrupted, false);
    assert_eq!(e.notice.as_deref(), Some("interrupted — turn cancelled"));
    assert!(e.dispatch_queue && e.cancel_work);
    assert_eq!((c.state, c.note.as_str()), (RunState::Idle, ""));
}

#[test]
fn failures_settle_the_tab() {
    let mut c = RunChrome::new();
    c.step(RunEvent::PromptSent, false);
    let e = c.step(RunEvent::Error { message: "boom".into() }, false);
    assert_eq!(e.notice.as_deref(), Some("boom"));
    assert!(e.notice_is_error && e.dispatch_queue);
    assert_eq!((c.state, c.prompt_pending, c.timing), (RunState::Idle, false, false));

    let mut c = RunChrome::new();
    let e = c.step(RunEvent::ConnectionFailed { target: String::new(), error: "refused".into() }, false);
    assert!(e.reset_session);
    assert_eq!(c.server.as_deref(), Some("ACP"));
    assert_eq!(c.connection_error.as_deref(), Some("refused"));
    c.step(RunEvent::Starting { harness: false }, false);
    assert!(c.connection_error.is_none());

    let mut c = RunChrome::new();
    c.step(RunEvent::PromptSent, false);
    let e = c.step(RunEvent::RuntimeExited { code: Some(-2) }, false);
    assert_eq!(e.notice.as_deref(), Some("runtime exited with code -2 — next prompt restarts it"));
    assert!(e.drop_queues);
    assert_eq!((c.state, c.prompt_pending), (RunState::Idle, false));
    let e = c.step(RunEvent::RuntimeExited { code: Some(0) }, true);
    assert!(e.notice.is_none());
    let e = c.step(RunEvent::RuntimeExited { code: Some(3) }, true);
    assert_eq!(e.notice.as_deref(), Some("运行时以退出码 3 结束 —— 下一条提示会重启它"));
}
