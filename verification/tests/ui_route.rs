use martty::modes::Modes;
use martty::picker::SubagentView;
use martty::ui_route::{
    enter_batch, finish_dest, fold_fact, rail_should_close, session_dest, slot_lifecycle, start_dest, FactState,
    SessionFact, SlotAgents, SlotLifecycle, SlotRun, UiDest,
};

fn strings(v: &[&str]) -> Vec<String> {
    v.iter().map(|s| s.to_string()).collect()
}

fn parked() -> Vec<SlotAgents> {
    vec![
        SlotAgents { id: "p1".to_owned(), views: strings(&["p1-a"]) },
        SlotAgents { id: "p2".to_owned(), views: strings(&["p2-a", "p2-b"]) },
    ]
}

#[test]
fn updates_land_with_their_session_or_nowhere() {
    let live = strings(&["live-a"]);
    assert_eq!(session_dest("live", &live, &parked(), "live"), UiDest::Live);
    assert_eq!(session_dest("live", &live, &parked(), "live-a"), UiDest::LiveView(0));
    assert_eq!(session_dest("live", &live, &parked(), "p2"), UiDest::Slot(1));
    assert_eq!(session_dest("live", &live, &parked(), "p2-b"), UiDest::SlotView(1, 1));
    assert_eq!(session_dest("live", &live, &parked(), "stranger"), UiDest::Drop, "a foreign session never leaks in");
}

#[test]
fn subagent_starts_and_ends_find_their_owner() {
    let live = strings(&["live-a"]);
    assert_eq!(start_dest("live", &live, &parked(), "live"), UiDest::Live);
    assert_eq!(start_dest("live", &live, &parked(), "live-a"), UiDest::Live);
    assert_eq!(start_dest("live", &live, &parked(), "p1-a"), UiDest::Slot(0));
    assert_eq!(start_dest("live", &live, &parked(), "nobody"), UiDest::Drop);
    assert_eq!(finish_dest(&live, &parked(), "live-a"), UiDest::LiveView(0));
    assert_eq!(finish_dest(&live, &parked(), "p2-a"), UiDest::SlotView(1, 0));
    assert_eq!(finish_dest(&live, &parked(), "p2"), UiDest::Drop, "a session is not a subagent view");
}

fn state() -> FactState {
    FactState { modes: Modes::default(), title: None, model: None }
}

#[test]
fn facts_fold_into_the_mode_state() {
    let mut s = state();
    assert!(!fold_fact(&mut s, SessionFact::PlanMode(false)), "an unchanged plan mode is not echoed");
    assert!(fold_fact(&mut s, SessionFact::PlanMode(true)));
    assert!(s.modes.plan);
    assert!(fold_fact(&mut s, SessionFact::SandboxMode("workspace".to_owned())));
    assert_eq!(s.modes.sandbox.as_deref(), Some("workspace"));
    assert!(fold_fact(&mut s, SessionFact::ApprovalPolicy("on-request".to_owned())));
    assert!(fold_fact(&mut s, SessionFact::PermissionPreset("read-only".to_owned())));
    assert_eq!(s.modes.permission.as_deref(), Some("read-only"));
    assert!(!fold_fact(&mut s, SessionFact::AgentPreset("code".to_owned())));
    assert!(!fold_fact(&mut s, SessionFact::ReasoningEffort("high".to_owned())));
    assert_eq!(s.modes.effort.as_deref(), Some("high"));
    assert!(fold_fact(&mut s, SessionFact::Title("fixing".to_owned())));
    assert!(!fold_fact(&mut s, SessionFact::Model("m1".to_owned())));
    assert_eq!((s.title.as_deref(), s.model.as_deref()), (Some("fixing"), Some("m1")));
}

#[test]
fn a_parked_tab_notices_a_turn_ending_unseen() {
    let idle = SlotRun { running: false, completed_unseen: false, prompt_pending: true, next_batch: false };
    let started = slot_lifecycle(idle, SlotLifecycle::TurnStart);
    assert_eq!(started, SlotRun { running: true, completed_unseen: false, prompt_pending: true, next_batch: true });
    let ended = slot_lifecycle(started, SlotLifecycle::TurnEnd);
    assert!(ended.completed_unseen);
    assert!(!ended.prompt_pending);
    let stopped = slot_lifecycle(started, SlotLifecycle::Status { running: false });
    assert_eq!(stopped, SlotRun { running: false, completed_unseen: true, prompt_pending: false, next_batch: true });
    let quiet = slot_lifecycle(idle, SlotLifecycle::Status { running: false });
    assert!(!quiet.completed_unseen, "nothing ran, nothing finished");
}

#[test]
fn a_new_turn_starts_a_new_batch() {
    let mut batch = strings(&["old"]);
    let mut next = true;
    enter_batch(&mut batch, &mut next, "a");
    assert_eq!(batch, strings(&["a"]));
    assert!(!next);
    enter_batch(&mut batch, &mut next, "b");
    enter_batch(&mut batch, &mut next, "a");
    assert_eq!(batch, strings(&["a", "b"]), "a child joins once");
}

fn view(running: bool, failed: bool) -> SubagentView<()> {
    SubagentView { id: "x".to_owned(), parent: "p".to_owned(), label: "x".to_owned(), running, failed, transcript: () }
}

#[test]
fn the_rail_closes_once_every_subagent_ended_cleanly() {
    assert!(rail_should_close(true, &vec![view(false, false), view(false, false)]));
    assert!(!rail_should_close(true, &vec![view(false, false), view(true, false)]));
    assert!(!rail_should_close(true, &vec![view(false, true)]));
    assert!(!rail_should_close(false, &vec![view(false, false)]));
}
