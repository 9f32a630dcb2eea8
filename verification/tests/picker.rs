use martty::picker::{
    plugin_provider, plugin_short_name, scroll_selection, select_initial_index, upsert_subagent_view, Picker,
    PickerItem, PickerKind, SelectOption, SelectOverlay, SubagentView,
};

fn option(value: &str, label: &str, description: Option<&str>) -> SelectOption {
    SelectOption {
        disabled: false,
        deletable: false,
        value: value.to_owned(),
        label: label.to_owned(),
        description: description.map(str::to_owned),
        group: None,
    }
}

fn overlay(query: &str, searchable: bool) -> SelectOverlay {
    SelectOverlay {
        id: "form".to_owned(),
        title: "Pick".to_owned(),
        value: "b".to_owned(),
        options: vec![
            option("a", "Alpha", Some("first letter")),
            option("b", "Beta", None),
            option("g", "Gamma Ray", Some("Burst")),
        ],
        searchable,
        query: query.to_owned(),
        sel: 1,
    }
}

#[test]
fn every_search_term_must_appear() {
    assert_eq!(overlay("", true).visible_indices(), vec![0, 1, 2]);
    assert_eq!(overlay("ray BURST", true).visible_indices(), vec![2]);
    assert_eq!(overlay("  a ", true).visible_indices(), vec![0, 1, 2]);
    assert_eq!(overlay("letter", true).visible_indices(), vec![0]);
    assert_eq!(overlay("zzz", false).visible_indices(), vec![0, 1, 2], "no search when not searchable");
    assert!(overlay("zzz", true).visible_indices().is_empty());
}

#[test]
fn a_hidden_selection_moves_to_the_first_shown_option() {
    let mut form = overlay("gamma", true);
    form.reconcile_search();
    assert_eq!(form.sel, 2);
    assert_eq!(form.value, "g");
    let mut kept = overlay("", true);
    kept.reconcile_search();
    assert_eq!(kept.sel, 1);
    assert_eq!(kept.value, "b");
}

#[test]
fn a_form_starts_on_its_value() {
    assert_eq!(select_initial_index(&overlay("", true)), Some(1));
    let mut duplicate = overlay("", true);
    duplicate.options.push(option("a", "Again", None));
    assert_eq!(select_initial_index(&duplicate), None, "duplicate values make the form malformed");
    let mut blank_group = overlay("", true);
    blank_group.options[0].group = Some("  ".to_owned());
    assert_eq!(select_initial_index(&blank_group), None);
    let mut untitled = overlay("", true);
    untitled.title = String::new();
    assert_eq!(select_initial_index(&untitled), None);
    let mut unknown = overlay("", true);
    unknown.value = "zz".to_owned();
    assert_eq!(select_initial_index(&unknown), None);
}

#[test]
fn plugin_modules_split_into_provider_and_name() {
    assert_eq!(plugin_provider("@scope/name"), "@scope");
    assert_eq!(plugin_short_name("@scope/name"), "name");
    assert_eq!(plugin_provider("plain"), "core");
    assert_eq!(plugin_short_name("plain"), "plain");
}

#[test]
fn a_wheel_step_clamps_at_both_ends() {
    assert_eq!(scroll_selection(2, 5, 1), 3);
    assert_eq!(scroll_selection(2, 5, 10), 4);
    assert_eq!(scroll_selection(2, 5, -10), 0);
    assert_eq!(scroll_selection(0, 0, 3), 0);
    assert_eq!(scroll_selection(4, 5, i64::MIN), 0);
    let mut picker = Picker {
        kind: PickerKind::Model,
        title: "t".to_owned(),
        sel: 0,
        items: vec![
            PickerItem { id: "a".to_owned(), label: "a".to_owned(), meta: String::new(), provider: None },
            PickerItem { id: "b".to_owned(), label: "b".to_owned(), meta: String::new(), provider: None },
        ],
        offset: 0,
    };
    picker.scroll_by(5);
    assert_eq!(picker.sel, 1);
}

#[test]
fn a_started_subagent_gets_or_revives_its_view() {
    let mut views: Vec<SubagentView<u32>> = Vec::new();
    upsert_subagent_view(&mut views, "parent", "child-1", "subagent ", 7);
    upsert_subagent_view(&mut views, "parent", "child-2", "subagent ", 8);
    assert_eq!(views.len(), 2);
    assert_eq!(views[1].label, "subagent 2");
    assert_eq!(views[1].transcript, 8);
    views[0].running = false;
    views[0].failed = true;
    upsert_subagent_view(&mut views, "parent", "child-1", "subagent ", 99);
    assert_eq!(views.len(), 2);
    assert!(views[0].running && !views[0].failed);
    assert_eq!(views[0].transcript, 7, "a revived view keeps its transcript");
    assert_eq!(views[0].label, "subagent 1");
}
