use martty::keys::{KeyCode, KeyEvent, KeyEventKind, CONTROL, SHIFT};
use martty::picker::{
    picker_key, plugin_choice, select_key, OverlayAction, Picker, PickerItem, PickerKind, PickerOutcome,
    PluginChoice, SelectOption, SelectOverlay,
};

fn key(code: KeyCode, modifiers: u8) -> KeyEvent {
    KeyEvent { code, modifiers, kind: KeyEventKind::Press }
}

fn option(value: &str, label: &str, deletable: bool, disabled: bool) -> SelectOption {
    SelectOption {
        disabled,
        deletable,
        value: value.to_owned(),
        label: label.to_owned(),
        description: None,
        group: None,
    }
}

fn form(searchable: bool, sel: usize) -> SelectOverlay {
    SelectOverlay {
        id: "form".to_owned(),
        title: "Pick".to_owned(),
        value: "b".to_owned(),
        options: vec![
            option("a", "Alpha", true, false),
            option("b", "Beta", false, false),
            option("g", "Gamma", false, true),
        ],
        searchable,
        query: String::new(),
        sel,
    }
}

#[test]
fn typing_edits_the_search_and_moves_the_highlight_onto_a_shown_option() {
    let (open, event) = select_key(form(true, 1), key(KeyCode::Char('g'), 0));
    let open = open.expect("typing keeps the form open");
    assert!(event.is_none());
    assert_eq!(open.query, "g");
    assert_eq!(open.sel, 2, "Beta is hidden by the search, Gamma is the first shown");
    assert_eq!(open.value, "g");

    let (open, _) = select_key(open, key(KeyCode::Char('A'), SHIFT));
    assert_eq!(open.unwrap().query, "gA");

    let (open, _) = select_key(form(true, 1), key(KeyCode::Char('u'), CONTROL));
    assert_eq!(open.unwrap().query, "", "Ctrl+U clears the query");
}

#[test]
fn backspace_shortens_the_search_of_a_searchable_form() {
    let mut f = form(true, 0);
    f.query = "al".to_owned();
    let (open, event) = select_key(f, key(KeyCode::Backspace, 0));
    assert!(event.is_none());
    assert_eq!(open.unwrap().query, "a");
}

#[test]
fn backspace_deletes_a_deletable_option_outside_a_search() {
    let (open, event) = select_key(form(false, 0), key(KeyCode::Backspace, 0));
    assert!(open.is_none());
    let event = event.unwrap();
    assert_eq!(event.action, OverlayAction::Delete);
    assert_eq!(event.value, "a");
    assert_eq!(event.id, "form");

    let (open, event) = select_key(form(false, 1), key(KeyCode::Delete, 0));
    assert!(event.is_none(), "Beta is not deletable");
    assert_eq!(open.unwrap().sel, 1);
}

#[test]
fn enter_submits_an_enabled_option_and_esc_cancels() {
    let (open, event) = select_key(form(false, 1), key(KeyCode::Enter, 0));
    assert!(open.is_none());
    let event = event.unwrap();
    assert_eq!(event.action, OverlayAction::Submit);
    assert_eq!(event.value, "b");

    let (open, event) = select_key(form(false, 2), key(KeyCode::Enter, 0));
    assert!(event.is_none(), "a disabled option cannot be submitted");
    assert!(open.is_some());

    let (open, event) = select_key(form(false, 2), key(KeyCode::Esc, 0));
    assert!(open.is_none());
    assert_eq!(event.unwrap().action, OverlayAction::Cancel);
}

#[test]
fn arrows_move_over_the_shown_options_and_report_the_change() {
    let (open, event) = select_key(form(false, 1), key(KeyCode::Down, 0));
    assert_eq!(open.unwrap().sel, 2);
    let event = event.unwrap();
    assert_eq!(event.action, OverlayAction::Change);
    assert_eq!(event.value, "g");

    let (open, event) = select_key(form(false, 2), key(KeyCode::Down, 0));
    assert_eq!(open.unwrap().sel, 2, "the last option stays put");
    assert!(event.is_none());

    let (open, _) = select_key(form(false, 2), key(KeyCode::Home, 0));
    assert_eq!(open.unwrap().sel, 0);
    let (open, _) = select_key(form(false, 0), key(KeyCode::End, 0));
    assert_eq!(open.unwrap().sel, 2);
    let (open, event) = select_key(form(false, 1), key(KeyCode::Up, CONTROL));
    assert_eq!(open.unwrap().sel, 1, "a modified arrow does nothing");
    assert!(event.is_none());
}

fn item(id: &str) -> PickerItem {
    PickerItem { id: id.to_owned(), label: id.to_uppercase(), meta: String::new(), provider: None }
}

fn picker(kind: PickerKind, sel: usize) -> Picker {
    Picker { kind, title: "Models".to_owned(), sel, items: vec![item("a"), item("b"), item("c"), item("d")], offset: 0 }
}

fn moved(outcome: PickerOutcome) -> (usize, bool) {
    match outcome {
        PickerOutcome::Open { picker, preview } => (picker.sel, preview),
        _ => panic!("the picker should stay open"),
    }
}

#[test]
fn picker_arrows_wrap_and_pages_stop_at_the_ends() {
    assert_eq!(moved(picker_key(picker(PickerKind::Model, 0), KeyCode::Up, 2)), (3, false));
    assert_eq!(moved(picker_key(picker(PickerKind::Model, 3), KeyCode::Down, 2)), (0, false));
    assert_eq!(moved(picker_key(picker(PickerKind::Model, 3), KeyCode::PageUp, 2)), (1, false));
    assert_eq!(moved(picker_key(picker(PickerKind::Model, 1), KeyCode::PageUp, 2)), (0, false));
    assert_eq!(moved(picker_key(picker(PickerKind::Model, 1), KeyCode::PageDown, 5)), (3, false));
    assert_eq!(moved(picker_key(picker(PickerKind::Model, 0), KeyCode::PageDown, 2)), (2, false));
    assert_eq!(moved(picker_key(picker(PickerKind::Model, 2), KeyCode::Home, 2)), (0, false));
    assert_eq!(moved(picker_key(picker(PickerKind::Model, 1), KeyCode::End, 2)), (3, false));
    assert_eq!(moved(picker_key(picker(PickerKind::Model, 1), KeyCode::Char('x'), 2)), (1, false));
}

#[test]
fn the_theme_picker_previews_a_moved_highlight() {
    assert_eq!(moved(picker_key(picker(PickerKind::Theme, 1), KeyCode::Down, 2)), (2, true));
    assert_eq!(moved(picker_key(picker(PickerKind::Theme, 0), KeyCode::Home, 2)), (0, false));
}

#[test]
fn enter_chooses_the_highlighted_row_and_esc_closes() {
    match picker_key(picker(PickerKind::Mode, 2), KeyCode::Enter, 2) {
        PickerOutcome::Chosen { kind, item } => {
            assert_eq!(kind, PickerKind::Mode);
            assert_eq!(item.id, "c");
        },
        _ => panic!("Enter should choose"),
    }
    assert!(matches!(picker_key(picker(PickerKind::Mode, 9), KeyCode::Enter, 2), PickerOutcome::Closed));
    assert!(matches!(picker_key(picker(PickerKind::Mode, 1), KeyCode::Esc, 2), PickerOutcome::Closed));
}

#[test]
fn plugin_choice_reviews_first_then_toggles() {
    assert_eq!(plugin_choice("running", Some("req-1")), PluginChoice::Review("req-1".to_owned()));
    assert_eq!(plugin_choice("starting-host", None), PluginChoice::AlreadyStarting);
    assert_eq!(plugin_choice("client-pending", None), PluginChoice::AlreadyStarting);
    assert_eq!(plugin_choice("running", None), PluginChoice::SetEnabled(false));
    assert_eq!(plugin_choice("waiting", None), PluginChoice::SetEnabled(false));
    assert_eq!(plugin_choice("stopped", None), PluginChoice::SetEnabled(true));
}
