//! The viewed tab's run chrome across connection and turn events: whether a
//! runtime is starting, a prompt is on its way, or a turn runs; the note the
//! meta row shows; whether the elapsed timer runs; and what the connection
//! reported. Every failure, interrupt or runtime exit settles the prompt in
//! flight and returns the tab to idle; a harness switch shows as a start
//! with its own note until the new connection is ready or fails.
use vstd::prelude::*;
use crate::modes::RunState;
use crate::numfmt::{decimal, format_decimal};
use crate::text::{concat_str, str_eq};

verus! {

/// The run chrome of the viewed tab.
pub struct RunChrome {
    pub state: RunState,
    /// A prompt went out and the agent has not taken it yet.
    pub prompt_pending: bool,
    /// The meta row's note (`starting runtime`, `cancelling`, …).
    pub note: String,
    /// The elapsed timer runs.
    pub timing: bool,
    /// The last connection failure, until the next start.
    pub connection_error: Option<String>,
    /// Who the tab is connected to.
    pub server: Option<String>,
}

pub struct RunView {
    pub state: RunState,
    pub prompt_pending: bool,
    pub note: Seq<char>,
    pub timing: bool,
    pub connection_error: Option<Seq<char>>,
    pub server: Option<Seq<char>>,
}

pub open spec fn opt_chars(o: Option<String>) -> Option<Seq<char>> {
    match o {
        Some(s) => Some(s@),
        None => None,
    }
}

impl View for RunChrome {
    type V = RunView;

    open spec fn view(&self) -> RunView {
        RunView {
            state: self.state,
            prompt_pending: self.prompt_pending,
            note: self.note@,
            timing: self.timing,
            connection_error: opt_chars(self.connection_error),
            server: opt_chars(self.server),
        }
    }
}

/// A connection or turn event as far as the run chrome reads it.
pub enum RunEvent {
    /// The runtime (or, with `harness`, a new harness) is starting.
    Starting { harness: bool },
    /// The agent answered `initialize`.
    Initialized { server: String },
    /// The connection is ready.
    Ready { server: String },
    /// The connection could not be made.
    ConnectionFailed { target: String, error: String },
    /// The viewed tab sent a prompt while idle.
    PromptSent,
    /// The agent took the viewed tab's prompt.
    PromptQueued,
    /// A connection-level error.
    Error { message: String },
    /// A failure of the viewed tab's session.
    SessionError { message: String },
    /// The user asked to cancel the viewed tab's turn.
    CancelRequested,
    /// The viewed tab's turn was interrupted.
    Interrupted,
    /// The runtime process exited, with its exit code if it had one.
    RuntimeExited { code: Option<i32> },
}

pub enum RunEventView {
    Starting { harness: bool },
    Initialized { server: Seq<char> },
    Ready { server: Seq<char> },
    ConnectionFailed { target: Seq<char>, error: Seq<char> },
    PromptSent,
    PromptQueued,
    Error { message: Seq<char> },
    SessionError { message: Seq<char> },
    CancelRequested,
    Interrupted,
    RuntimeExited { code: Option<i32> },
}

impl View for RunEvent {
    type V = RunEventView;

    open spec fn view(&self) -> RunEventView {
        match self {
            RunEvent::Starting { harness } => RunEventView::Starting { harness: *harness },
            RunEvent::Initialized { server } => RunEventView::Initialized { server: server@ },
            RunEvent::Ready { server } => RunEventView::Ready { server: server@ },
            RunEvent::ConnectionFailed { target, error } => RunEventView::ConnectionFailed {
                target: target@,
                error: error@,
            },
            RunEvent::PromptSent => RunEventView::PromptSent,
            RunEvent::PromptQueued => RunEventView::PromptQueued,
            RunEvent::Error { message } => RunEventView::Error { message: message@ },
            RunEvent::SessionError { message } => RunEventView::SessionError { message: message@ },
            RunEvent::CancelRequested => RunEventView::CancelRequested,
            RunEvent::Interrupted => RunEventView::Interrupted,
            RunEvent::RuntimeExited { code } => RunEventView::RuntimeExited { code: *code },
        }
    }
}

/// What the shell does besides the chrome.
pub struct RunEffect {
    /// A notice for the viewed transcript.
    pub notice: Option<String>,
    /// The notice is an error (else a warning).
    pub notice_is_error: bool,
    /// Close the transcript's open work (running tools, streaming text).
    pub cancel_work: bool,
    /// Offer the queue its next prompt.
    pub dispatch_queue: bool,
    /// The session is gone: its id, binding, models and sign-in are reset.
    pub reset_session: bool,
    /// The runtime is gone: every tab's queued prompts and steers are dropped.
    pub drop_queues: bool,
}

pub struct EffectView {
    pub notice: Option<Seq<char>>,
    pub notice_is_error: bool,
    pub cancel_work: bool,
    pub dispatch_queue: bool,
    pub reset_session: bool,
    pub drop_queues: bool,
}

pub open spec fn effect_view(e: RunEffect) -> EffectView {
    EffectView {
        notice: opt_chars(e.notice),
        notice_is_error: e.notice_is_error,
        cancel_work: e.cancel_work,
        dispatch_queue: e.dispatch_queue,
        reset_session: e.reset_session,
        drop_queues: e.drop_queues,
    }
}

pub open spec fn no_effect() -> EffectView {
    EffectView {
        notice: None,
        notice_is_error: false,
        cancel_work: false,
        dispatch_queue: false,
        reset_session: false,
        drop_queues: false,
    }
}

/// The note a harness switch shows while it starts.
pub open spec fn switching_note() -> Seq<char> {
    "switching Harness"@
}

/// A harness switch is under way: a start with the switching note.
pub open spec fn switching(v: RunView) -> bool {
    v.state == RunState::Starting && v.note == switching_note()
}

/// The tab back at rest: idle, no prompt pending, no note, no timer.
pub open spec fn settled(v: RunView) -> RunView {
    RunView { state: RunState::Idle, prompt_pending: false, note: Seq::empty(), timing: false, ..v }
}

/// A signed decimal numeral.
pub open spec fn signed_decimal(c: i32) -> Seq<char> {
    if c < 0 { "-"@ + decimal((-c) as nat) } else { decimal(c as nat) }
}

/// The notice after an interrupt.
pub open spec fn interrupted_text(zh: bool) -> Seq<char> {
    if zh { "已中断 —— 本轮已取消"@ } else { "interrupted — turn cancelled"@ }
}

/// The notice after the runtime exited with a failing code.
pub open spec fn exit_text(c: i32, zh: bool) -> Seq<char> {
    if zh {
        "运行时以退出码 "@ + signed_decimal(c) + " 结束 —— 下一条提示会重启它"@
    } else {
        "runtime exited with code "@ + signed_decimal(c) + " — next prompt restarts it"@
    }
}

/// The chrome and effect after an event.
pub open spec fn run_step(v: RunView, e: RunEventView, zh: bool) -> (RunView, EffectView) {
    match e {
        RunEventView::Starting { harness } => (
            RunView {
                state: RunState::Starting,
                timing: true,
                note: if harness { switching_note() } else { "starting runtime"@ },
                connection_error: None,
                ..v
            },
            no_effect(),
        ),
        RunEventView::Initialized { server } => (RunView { server: Some(server), ..v }, no_effect()),
        RunEventView::Ready { server } => (
            if v.prompt_pending {
                RunView { connection_error: None, server: Some(server), ..v }
            } else {
                settled(RunView { connection_error: None, server: Some(server), ..v })
            },
            no_effect(),
        ),
        RunEventView::ConnectionFailed { target, error } => (
            settled(
                RunView {
                    server: if target.len() > 0 {
                        Some(target)
                    } else if v.server is None {
                        Some("ACP"@)
                    } else {
                        v.server
                    },
                    connection_error: Some(error),
                    ..v
                },
            ),
            EffectView { notice: Some(error), notice_is_error: true, reset_session: true, ..no_effect() },
        ),
        RunEventView::PromptSent => (
            RunView { state: RunState::Starting, prompt_pending: true, timing: true, ..v },
            no_effect(),
        ),
        RunEventView::PromptQueued => (
            RunView {
                prompt_pending: false,
                state: if v.state == RunState::Starting { RunState::Running } else { v.state },
                note: Seq::empty(),
                ..v
            },
            no_effect(),
        ),
        RunEventView::Error { message } => (
            RunView { state: RunState::Idle, prompt_pending: false, timing: false, ..v },
            EffectView { notice: Some(message), notice_is_error: true, dispatch_queue: true, ..no_effect() },
        ),
        RunEventView::SessionError { message } => (
            RunView { state: RunState::Idle, prompt_pending: false, timing: false, ..v },
            EffectView { notice: Some(message), notice_is_error: true, ..no_effect() },
        ),
        RunEventView::CancelRequested => (
            RunView { note: "cancelling"@, ..v },
            EffectView { cancel_work: true, ..no_effect() },
        ),
        RunEventView::Interrupted => (
            settled(v),
            EffectView {
                notice: Some(interrupted_text(zh)),
                cancel_work: true,
                dispatch_queue: true,
                ..no_effect()
            },
        ),
        RunEventView::RuntimeExited { code } => (
            if v.state != RunState::Idle {
                RunView { state: RunState::Idle, prompt_pending: false, timing: false, ..v }
            } else {
                RunView { prompt_pending: false, ..v }
            },
            EffectView {
                notice: match code {
                    Some(c) => if c != 0 { Some(exit_text(c, zh)) } else { None },
                    None => None,
                },
                drop_queues: true,
                ..no_effect()
            },
        ),
    }
}

fn signed_numeral(c: i32) -> (r: String)
    ensures
        r@ == signed_decimal(c),
{
    if c < 0 {
        let magnitude: u64 = (-(c as i64)) as u64;
        let n = format_decimal(magnitude);
        concat_str("-", n.as_str())
    } else {
        format_decimal(c as u64)
    }
}

fn quiet() -> (r: RunEffect)
    ensures
        effect_view(r) == no_effect(),
{
    RunEffect {
        notice: None,
        notice_is_error: false,
        cancel_work: false,
        dispatch_queue: false,
        reset_session: false,
        drop_queues: false,
    }
}

impl RunChrome {
    /// A tab that has not started anything.
    pub fn new() -> (r: RunChrome)
        ensures
            r@ == (RunView {
                state: RunState::Idle,
                prompt_pending: false,
                note: Seq::empty(),
                timing: false,
                connection_error: None,
                server: None,
            }),
    {
        RunChrome {
            state: RunState::Idle,
            prompt_pending: false,
            note: String::new(),
            timing: false,
            connection_error: None,
            server: None,
        }
    }

    /// A harness switch is under way.
    pub fn switching(&self) -> (r: bool)
        ensures
            r == switching(self@),
    {
        proof {
            reveal_strlit("switching Harness");
        }
        self.state == RunState::Starting && str_eq(self.note.as_str(), "switching Harness")
    }

    fn settle(&mut self)
        ensures
            final(self)@ == settled(old(self)@),
    {
        self.state = RunState::Idle;
        self.prompt_pending = false;
        self.note = String::new();
        self.timing = false;
    }

    /// Fold one event into the chrome; what the shell must do besides.
    pub fn step(&mut self, event: RunEvent, zh: bool) -> (r: RunEffect)
        ensures
            (final(self)@, effect_view(r)) == run_step(old(self)@, event@, zh),
    {
        match event {
            RunEvent::Starting { harness } => {
                self.connection_error = None;
                self.state = RunState::Starting;
                self.timing = true;
                self.note = (if harness { "switching Harness" } else { "starting runtime" }).to_owned();
                quiet()
            },
            RunEvent::Initialized { server } => {
                self.server = Some(server);
                quiet()
            },
            RunEvent::Ready { server } => {
                self.connection_error = None;
                self.server = Some(server);
                if !self.prompt_pending {
                    self.settle();
                }
                quiet()
            },
            RunEvent::ConnectionFailed { target, error } => {
                if crate::text::char_len(target.as_str()) > 0 {
                    self.server = Some(target);
                } else if self.server.is_none() {
                    self.server = Some("ACP".to_owned());
                }
                self.connection_error = Some(error.clone());
                self.settle();
                RunEffect { notice: Some(error), notice_is_error: true, reset_session: true, ..quiet() }
            },
            RunEvent::PromptSent => {
                self.prompt_pending = true;
                self.state = RunState::Starting;
                self.timing = true;
                quiet()
            },
            RunEvent::PromptQueued => {
                self.prompt_pending = false;
                if self.state == RunState::Starting {
                    self.state = RunState::Running;
                }
                self.note = String::new();
                quiet()
            },
            RunEvent::Error { message } => {
                self.prompt_pending = false;
                self.state = RunState::Idle;
                self.timing = false;
                RunEffect { notice: Some(message), notice_is_error: true, dispatch_queue: true, ..quiet() }
            },
            RunEvent::SessionError { message } => {
                self.prompt_pending = false;
                self.state = RunState::Idle;
                self.timing = false;
                RunEffect { notice: Some(message), notice_is_error: true, ..quiet() }
            },
            RunEvent::CancelRequested => {
                self.note = "cancelling".to_owned();
                RunEffect { cancel_work: true, ..quiet() }
            },
            RunEvent::Interrupted => {
                self.settle();
                let text = if zh { "已中断 —— 本轮已取消" } else { "interrupted — turn cancelled" };
                RunEffect { notice: Some(text.to_owned()), cancel_work: true, dispatch_queue: true, ..quiet() }
            },
            RunEvent::RuntimeExited { code } => {
                self.prompt_pending = false;
                if self.state != RunState::Idle {
                    self.state = RunState::Idle;
                    self.timing = false;
                }
                let notice = match code {
                    Some(c) => if c != 0 {
                        let n = signed_numeral(c);
                        let a = concat_str(
                            if zh { "运行时以退出码 " } else { "runtime exited with code " },
                            n.as_str(),
                        );
                        Some(
                            concat_str(
                                a.as_str(),
                                if zh { " 结束 —— 下一条提示会重启它" } else { " — next prompt restarts it" },
                            ),
                        )
                    } else {
                        None
                    },
                    None => None,
                };
                RunEffect { notice, drop_queues: true, ..quiet() }
            },
        }
    }
}

/// Whatever fails, is interrupted or exits, the tab ends with no prompt
/// pending and at rest.
pub proof fn law_failures_settle_the_tab(v: RunView, e: RunEventView, zh: bool)
    requires
        e is ConnectionFailed || e is Error || e is SessionError || e is Interrupted || e is RuntimeExited,
    ensures
        ({
            let (after, _) = run_step(v, e, zh);
            !after.prompt_pending && after.state == RunState::Idle
        }),
{
}

/// A harness switch shows as under way from its start until the new
/// connection is ready (with no prompt waiting) or fails.
pub proof fn law_switch_shows_until_ready_or_failed(v: RunView, server: Seq<char>, target: Seq<char>, error: Seq<char>, zh: bool)
    ensures
        ({
            let (started, _) = run_step(v, RunEventView::Starting { harness: true }, zh);
            let (ready, _) = run_step(started, RunEventView::Ready { server }, zh);
            let (failed, _) = run_step(started, RunEventView::ConnectionFailed { target, error }, zh);
            &&& switching(started)
            &&& !started.prompt_pending ==> !switching(ready) && ready.state == RunState::Idle
            &&& !switching(failed) && failed.connection_error == Some(error)
        }),
{
    reveal_strlit("switching Harness");
    assert(switching_note().len() > 0);
}

/// The agent taking a prompt never returns the tab to idle: a start becomes
/// a run and any other state stays.
pub proof fn law_taken_prompt_runs(v: RunView, zh: bool)
    ensures
        ({
            let (after, _) = run_step(v, RunEventView::PromptQueued, zh);
            &&& !after.prompt_pending
            &&& (v.state == RunState::Starting ==> after.state == RunState::Running)
            &&& (v.state != RunState::Starting ==> after.state == v.state)
        }),
{
}

} // verus!
