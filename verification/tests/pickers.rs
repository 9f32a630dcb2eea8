use martty::picker::{Picker, PickerKind};
use martty::harness::{Harness, HarnessEntry};
use martty::options::UiPluginRow;
use martty::pickers::{
    cordis_approval_picker, cordis_plugin_picker, effort_picker, harness_picker, harness_switch, match_session, mode_picker,
    model_picker, permission_picker, ui_plugin_picker, CordisPluginRow, HarnessSwitch, SessionMatch,
};
use martty::slash_catalog::CatalogPreset;

fn ids(p: &Picker) -> Vec<String> {
    p.items.iter().map(|i| i.id.clone()).collect()
}

fn strings(v: &[&str]) -> Vec<String> {
    v.iter().map(|s| s.to_string()).collect()
}

#[test]
fn the_model_picker_highlights_the_model_in_effect() {
    let p = model_picker(None, "deepseek-v3.2", "models");
    assert_eq!(p.kind, PickerKind::Model);
    assert_eq!(p.title, "models");
    assert_eq!(ids(&p), strings(&["deepseek-v4-flash", "deepseek-v4", "deepseek-v3.2", "deepseek-chat", "deepseek-reasoner"]));
    assert_eq!(p.sel, 2);

    let p = model_picker(Some(strings(&["m1", "m2"])), "custom", "models");
    assert_eq!(ids(&p), strings(&["custom", "m1", "m2"]), "a missing model in effect goes first");
    assert_eq!(p.sel, 0);
    assert_eq!(p.items[1].label, "m1");
    assert!(p.items.iter().all(|i| i.meta.is_empty() && i.provider.is_none()));
}

#[test]
fn the_effort_picker_prefers_the_effort_in_effect_then_the_default() {
    let p = effort_picker(strings(&["low", "medium", "high"]), Some("medium".into()), Some("high".into()), "default", "effort");
    assert_eq!(p.kind, PickerKind::Effort);
    assert_eq!(ids(&p), strings(&["low", "medium", "high"]));
    assert_eq!(p.items[1].meta, "default");
    assert_eq!(p.items[0].meta, "");
    assert_eq!(p.sel, 2);

    let p = effort_picker(strings(&["low", "medium"]), Some("medium".into()), Some("ultra".into()), "默认", "effort");
    assert_eq!(p.sel, 1, "an unknown effort falls back to the default");
    assert_eq!(p.items[1].meta, "默认");

    let p = effort_picker(Vec::new(), None, None, "default", "effort");
    assert_eq!(ids(&p), strings(&["off", "high", "max"]));
    assert_eq!(p.sel, 0);
}

fn preset(id: &str, broken: bool) -> CatalogPreset {
    CatalogPreset { id: id.to_owned(), name: id.to_uppercase(), description: format!("{id} preset"), broken }
}

#[test]
fn the_mode_picker_lists_presets_or_the_demo_modes() {
    let presets = vec![preset("plan", false), preset("build", true)];
    let p = mode_picker(false, &presets, "build", "agent");
    assert_eq!(p.kind, PickerKind::Mode);
    assert_eq!(ids(&p), strings(&["plan", "build"]));
    assert_eq!(p.items[1].meta, "⚠ broken · build preset");
    assert_eq!(p.items[0].label, "PLAN");
    assert_eq!(p.sel, 1);

    let demo = mode_picker(true, &presets, "minimal", "agent");
    assert_eq!(ids(&demo), strings(&["standard", "code", "minimal", "cordis"]));
    assert_eq!(demo.items[3].label, "Creator mode");
    assert_eq!(demo.sel, 2);
}

#[test]
fn the_permission_picker_marks_the_reported_or_default_mode() {
    let p = permission_picker(&Vec::new(), None, "workspace-write", "permission");
    assert_eq!(p.kind, PickerKind::Permission);
    assert_eq!(ids(&p), strings(&["read-only", "workspace-write", "danger-full-access"]));
    assert_eq!(p.items[1].meta, "write inside the workspace · wider actions ask for approval · default");
    assert_eq!(p.items[0].meta, "read only — no file writes");
    assert_eq!(p.sel, 1);

    let p = permission_picker(&Vec::new(), Some("read-only"), "read-only", "permission");
    assert_eq!(p.items[0].meta, "read only — no file writes · current");
    assert_eq!(p.sel, 0);

    let custom = vec![preset("ask", false), preset("auto", false)];
    let p = permission_picker(&custom, Some("auto"), "auto", "permission");
    assert_eq!(ids(&p), strings(&["ask", "auto"]));
    assert_eq!(p.items[1].meta, "auto preset · current");
    assert_eq!(p.sel, 1);
}

#[test]
fn a_resume_argument_names_one_session() {
    let sessions = strings(&["abc123", "abd456", "abc", "zzz"]);
    assert_eq!(match_session(&sessions, "zz"), SessionMatch::Found(3));
    assert_eq!(match_session(&sessions, "abd"), SessionMatch::Found(1));
    assert_eq!(match_session(&sessions, "q"), SessionMatch::NoMatch);
    assert_eq!(match_session(&sessions, "ab"), SessionMatch::Ambiguous(3));
    assert_eq!(match_session(&sessions, "abc"), SessionMatch::Found(2), "an exact id settles an ambiguous prefix");
}

fn entry(id: &str, label: &str, command: &str, args: &[&str]) -> HarnessEntry {
    HarnessEntry {
        id: id.to_string(),
        label: label.to_string(),
        harness: Harness { command: command.to_string(), args: strings(args), env: vec![] },
    }
}

#[test]
fn the_harness_picker_lists_every_harness_and_marks_the_active_one() {
    assert!(harness_picker(&vec![], Some("x"), "harnesses").is_none());
    let entries = vec![entry("a", "Agent A", "npx", &["agent-a", "--acp"]), entry("b", "Agent B", "b-acp", &[])];
    let p = harness_picker(&entries, Some("b"), "harnesses").unwrap();
    assert_eq!(p.kind, PickerKind::Harness);
    assert_eq!(ids(&p), strings(&["a", "b"]));
    assert_eq!(p.items[0].meta, "npx agent-a --acp");
    assert_eq!(p.items[1].meta, "b-acp · active");
    assert_eq!(p.items[1].label, "Agent B");
    assert_eq!(p.sel, 1);
    let p = harness_picker(&entries, None, "harnesses").unwrap();
    assert_eq!(p.sel, 0);
    assert_eq!(p.items[1].meta, "b-acp");
}

#[test]
fn harness_switch_refuses_unknown_ids_and_leaves_the_active_one() {
    let entries = vec![entry("a", "Agent A", "a", &[]), entry("b", "Agent B", "b", &[])];
    assert_eq!(harness_switch(&entries, Some("a"), "zzz"), HarnessSwitch::Unknown);
    assert_eq!(harness_switch(&entries, Some("a"), " a "), HarnessSwitch::AlreadyActive("Agent A".to_string()));
    assert_eq!(harness_switch(&entries, Some("a"), "b"), HarnessSwitch::Switch(1));
    assert_eq!(harness_switch(&entries, None, "a"), HarnessSwitch::Switch(0));
}

fn ui_row(id: &str, source: &str, status: &str) -> UiPluginRow {
    UiPluginRow { id: id.to_string(), label: id.to_uppercase(), source: source.to_string(), status: status.to_string() }
}

#[test]
fn the_ui_plugin_picker_highlights_the_first_active_plugin() {
    let rows = vec![ui_row("p1", "builtin", "inactive"), ui_row("p2", "local", "active"), ui_row("p3", "npm", "active")];
    let p = ui_plugin_picker(&rows, "plugins");
    assert_eq!(p.kind, PickerKind::UiPlugin);
    assert_eq!(ids(&p), strings(&["p1", "p2", "p3"]));
    assert_eq!(p.items[0].meta, "builtin · inactive");
    assert_eq!(p.items[1].label, "P2");
    assert_eq!(p.sel, 1);
    let p = ui_plugin_picker(&vec![ui_row("p1", "builtin", "inactive")], "plugins");
    assert_eq!(p.sel, 0);
}

#[test]
fn the_dynamic_plugin_manager_notes_each_status() {
    let rows: Vec<CordisPluginRow> = ["awaiting-approval", "running", "waiting", "starting-host", "client-pending", "failed", "stopped"]
        .iter()
        .enumerate()
        .map(|(i, s)| CordisPluginRow { id: format!("c{}", i), name: format!("Plugin {}", i), status: s.to_string() })
        .collect();
    let p = cordis_plugin_picker(&rows, "dynamic");
    assert_eq!(p.kind, PickerKind::CordisPlugin);
    assert_eq!(p.sel, 0);
    let metas: Vec<&str> = p.items.iter().map(|i| i.meta.as_str()).collect();
    assert_eq!(
        metas,
        vec![
            "dynamic · awaiting approval · enter review",
            "dynamic · running · enter stop",
            "dynamic · running · enter stop",
            "dynamic · starting",
            "dynamic · starting",
            "dynamic · failed · enter retry",
            "dynamic · stopped · enter restore",
        ]
    );
    assert_eq!(p.items[2].label, "Plugin 2");
}

#[test]
fn the_approval_picker_carries_the_request_on_every_row() {
    let p = cordis_approval_picker("req-7", false, "approve");
    assert_eq!(p.kind, PickerKind::CordisApproval);
    assert_eq!(ids(&p), strings(&["allow-version", "allow-future", "reject"]));
    assert_eq!(p.items[0].label, "Allow this version");
    assert_eq!(p.items[2].label, "Reject");
    assert!(p.items.iter().all(|i| i.provider.as_deref() == Some("req-7") && i.meta.is_empty()));
    let p = cordis_approval_picker("req-7", true, "approve");
    assert_eq!(p.items[1].label, "允许后续版本");
}
