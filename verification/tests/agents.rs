use martty::agents::{
    active_agent_id, agent_history_items, agent_history_picker, agent_navigation_ids, agent_target,
    agents_snapshot, begin_agent_navigation, in_current_batch, move_agent_selection, AgentTarget, AGENT_HISTORY_ID,
};
use martty::picker::{PickerKind, SubagentView};

fn view(id: &str, running: bool, failed: bool) -> SubagentView<()> {
    SubagentView {
        id: id.to_owned(),
        parent: "root".to_owned(),
        label: format!("agent {id}"),
        running,
        failed,
        transcript: (),
    }
}

fn views() -> Vec<SubagentView<()>> {
    vec![view("a", false, false), view("b", false, true), view("c", true, false)]
}

fn batch(ids: &[&str]) -> Vec<String> {
    ids.iter().map(|s| s.to_string()).collect()
}

#[test]
fn every_subagent_is_current_without_a_batch() {
    assert!(in_current_batch(&Vec::new(), "anything"));
    assert!(in_current_batch(&batch(&["c"]), "c"));
    assert!(!in_current_batch(&batch(&["c"]), "a"));
}

#[test]
fn the_strip_lists_the_session_the_batch_and_the_history() {
    assert_eq!(agent_navigation_ids("root", &views(), &Vec::new()), batch(&["root", "a", "b", "c"]));
    assert_eq!(agent_navigation_ids("root", &views(), &batch(&["c"])), batch(&["root", "c", AGENT_HISTORY_ID]));
    assert_eq!(agent_navigation_ids("root", &Vec::<SubagentView<()>>::new(), &Vec::new()), batch(&["root"]));
}

#[test]
fn the_highlight_wraps_both_ways() {
    let ids = batch(&["root", "a", "b"]);
    assert_eq!(move_agent_selection(&ids, "root", 1), Some("a".to_owned()));
    assert_eq!(move_agent_selection(&ids, "root", -1), Some("b".to_owned()));
    assert_eq!(move_agent_selection(&ids, "b", 1), Some("root".to_owned()));
    assert_eq!(move_agent_selection(&ids, "zzz", 1), Some("a".to_owned()), "an unknown entry counts as the first");
    assert_eq!(move_agent_selection(&ids, "a", -7), Some("root".to_owned()));
    assert_eq!(move_agent_selection(&ids, "a", i64::MIN), move_agent_selection(&ids, "a", -2));
    assert_eq!(move_agent_selection(&batch(&["root"]), "root", 1), None, "a strip of one has nowhere to go");
    // One step forward and one back returns to the start.
    let there = move_agent_selection(&ids, "b", 1).unwrap();
    assert_eq!(move_agent_selection(&ids, &there, -1), Some("b".to_owned()));
}

#[test]
fn the_active_entry_names_earlier_subagents_by_the_history() {
    let current = batch(&["c"]);
    assert_eq!(active_agent_id("root", None, &current), "root");
    assert_eq!(active_agent_id("root", Some("c"), &current), "c");
    assert_eq!(active_agent_id("root", Some("a"), &current), AGENT_HISTORY_ID);
    assert_eq!(begin_agent_navigation("root", Some("a"), &views(), &current), Some(AGENT_HISTORY_ID.to_owned()));
    assert_eq!(begin_agent_navigation::<()>("root", None, &Vec::new(), &current), None);
}

#[test]
fn choosing_an_entry_shows_its_transcript() {
    assert_eq!(agent_target("root", &views(), AGENT_HISTORY_ID), AgentTarget::OpenHistory);
    assert_eq!(agent_target("root", &views(), "root"), AgentTarget::Main);
    assert_eq!(agent_target("root", &views(), "b"), AgentTarget::Subagent("b".to_owned()));
    assert_eq!(agent_target("root", &views(), "gone"), AgentTarget::Unknown);
}

#[test]
fn the_history_picker_lists_earlier_subagents_newest_first() {
    let items = agent_history_items(&views(), &batch(&["c"]));
    let rows: Vec<(String, String)> = items.iter().map(|i| (i.id.clone(), i.meta.clone())).collect();
    assert_eq!(rows, vec![("b".to_owned(), "failed".to_owned()), ("a".to_owned(), "completed".to_owned())]);
    assert_eq!(items[1].label, "agent a");
    let picker = agent_history_picker(&views(), &batch(&["c"])).unwrap();
    assert_eq!(picker.kind, PickerKind::AgentHistory);
    assert_eq!(picker.title, "Agent history");
    assert_eq!(picker.sel, 0);
    assert!(agent_history_picker(&views(), &Vec::new()).is_none(), "every subagent is current");
}

#[test]
fn the_snapshot_reports_every_row_and_a_history_count() {
    let snap = agents_snapshot("root", "main", true, Some("a"), Some("b"), &views(), &batch(&["c"]));
    assert_eq!(snap.active_id, AGENT_HISTORY_ID);
    assert_eq!(snap.selected_id.as_deref(), Some("b"));
    let rows: Vec<(String, String, String, String, bool)> = snap
        .items
        .iter()
        .map(|r| (r.id.clone(), r.label.clone(), r.kind.clone(), r.status.clone(), r.current))
        .collect();
    let row = |a: &str, b: &str, c: &str, d: &str, e: bool| (a.to_owned(), b.to_owned(), c.to_owned(), d.to_owned(), e);
    assert_eq!(
        rows,
        vec![
            row("root", "main", "main", "running", false),
            row("a", "agent a", "subagent", "finished", false),
            row("b", "agent b", "subagent", "failed", false),
            row("c", "agent c", "subagent", "running", true),
            row(AGENT_HISTORY_ID, "History (2)", "history", "idle", false),
        ]
    );
    let idle = agents_snapshot("root", "main", false, None, Some("nobody"), &views(), &Vec::new());
    assert_eq!(idle.items.len(), 4, "no history row while every subagent is current");
    assert_eq!(idle.items[0].status, "idle");
    assert_eq!(idle.selected_id, None, "a highlight on no row is not reported");
}
