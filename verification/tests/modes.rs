use martty::modes::{
    agent_label, choose_model, current_mode, revert_rejected_switch, current_model, current_permission, next_agent, next_permission, Modes,
};
use martty::slash_catalog::CatalogPreset;

fn preset(id: &str, name: &str) -> CatalogPreset {
    CatalogPreset { id: id.to_owned(), name: name.to_owned(), description: String::new(), broken: false }
}

#[test]
fn the_effective_mode_falls_back_in_order() {
    let mut modes = Modes::default();
    assert_eq!(current_mode(&modes, true, &Vec::new()), "standard");
    assert_eq!(current_mode(&modes, false, &vec![preset("p1", "P1"), preset("p2", "P2")]), "p1");
    assert_eq!(current_mode(&modes, false, &Vec::new()), "");
    modes.agent_preset = Some("chosen".to_owned());
    assert_eq!(current_mode(&modes, true, &Vec::new()), "chosen");
}

#[test]
fn preset_labels_resolve_through_the_catalog() {
    let presets = vec![preset("p1", "Preset One")];
    assert_eq!(agent_label("p1", false, &presets), "Preset One");
    assert_eq!(agent_label("code", true, &presets), "Code mode");
    assert_eq!(agent_label("code", false, &presets), "code");
    assert_eq!(agent_label("nope", true, &presets), "nope");
}

#[test]
fn the_model_in_effect() {
    let configured = "cfg".to_owned();
    assert_eq!(current_model(&Some("pick".to_owned()), &Some("streamed".to_owned()), &configured), "pick");
    assert_eq!(current_model(&None, &Some("streamed".to_owned()), &configured), "streamed");
    assert_eq!(current_model(&None, &None, &configured), "cfg");
}

#[test]
fn the_permission_in_effect_defaults_to_workspace_write() {
    let mut modes = Modes::default();
    assert_eq!(current_permission(&modes), "workspace-write");
    modes.permission = Some("read-only".to_owned());
    assert_eq!(current_permission(&modes), "read-only");
}

#[test]
fn shift_tab_cycles_the_stock_presets() {
    let none: Vec<CatalogPreset> = Vec::new();
    assert_eq!(next_permission(&none, "read-only"), "workspace-write");
    assert_eq!(next_permission(&none, "workspace-write"), "danger-full-access");
    assert_eq!(next_permission(&none, "danger-full-access"), "read-only");
    // an unknown current counts as the first choice
    assert_eq!(next_permission(&none, "custom"), "workspace-write");
    // a single advertised mode is not a cycle
    assert_eq!(next_permission(&vec![preset("only", "Only")], "only"), "workspace-write");
}

#[test]
fn shift_tab_cycles_the_advertised_modes() {
    let modes = vec![preset("a", "A"), preset("b", "B"), preset("c", "C")];
    let mut current = "a".to_owned();
    let mut seen = Vec::new();
    for _ in 0..3 {
        current = next_permission(&modes, &current);
        seen.push(current.clone());
    }
    assert_eq!(seen, vec!["b", "c", "a"]);
}

#[test]
fn agent_cycle_moves_to_the_next_preset() {
    let presets = vec![preset("x", "X"), preset("y", "Y")];
    assert_eq!(next_agent("x", false, &presets).as_deref(), Some("y"));
    assert_eq!(next_agent("y", false, &presets).as_deref(), Some("x"));
    assert_eq!(next_agent("unknown", false, &presets).as_deref(), Some("x"));
    assert_eq!(next_agent("x", false, &Vec::new()), None);
    assert_eq!(next_agent("cordis", true, &Vec::new()).as_deref(), Some("standard"));
}

#[test]
fn picking_a_model_switches_only_on_a_change() {
    let c = choose_model("m2", None, "m1", "deepseek");
    assert!(c.switch);
    assert_eq!((c.model.as_str(), c.provider.as_str()), ("m2", "deepseek"));
    let c = choose_model("m1", Some("other"), "m1", "deepseek");
    assert!(c.switch);
    assert_eq!((c.model.as_str(), c.provider.as_str()), ("m1", "other"));
    let c = choose_model("m1", Some("deepseek"), "m1", "deepseek");
    assert!(!c.switch);
    assert_eq!((c.model.as_str(), c.provider.as_str()), ("m1", "deepseek"));
}

#[test]
fn a_rejected_switch_withdraws_only_what_it_showed() {
    let mut model = Some("m2".to_string());
    let mut effort = Some("high".to_string());
    revert_rejected_switch(&mut model, &mut effort, Some("m2"), Some("low"));
    assert_eq!(model, None);
    assert_eq!(effort.as_deref(), Some("high"));
    revert_rejected_switch(&mut model, &mut effort, None, Some("high"));
    assert_eq!(effort, None);
}
