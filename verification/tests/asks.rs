use martty::asks::{ask_owner, ask_step, ask_title, form_pane_scroll, option_name, AskOwner, AskStep};
use martty::keys::{KeyCode, KeyEvent, KeyEventKind, CONTROL, SHIFT};
use martty::ui_route::SlotAgents;

fn key(code: KeyCode, modifiers: u8) -> KeyEvent {
    KeyEvent { code, modifiers, kind: KeyEventKind::Press }
}

#[test]
fn an_ask_waits_on_the_tab_of_its_session() {
    let live_views = vec!["sub".to_owned()];
    let parked = vec![SlotAgents { id: "p".to_owned(), views: vec!["p-sub".to_owned()] }];
    assert_eq!(ask_owner(Some("live"), "live", &live_views, &parked), AskOwner::Live);
    assert_eq!(ask_owner(Some("sub"), "live", &live_views, &parked), AskOwner::Live);
    assert_eq!(ask_owner(Some("p-sub"), "live", &live_views, &parked), AskOwner::Parked(0));
    assert_eq!(ask_owner(Some("who"), "live", &live_views, &parked), AskOwner::Unknown);
    assert_eq!(ask_owner(None, "live", &live_views, &parked), AskOwner::Live);
}

#[test]
fn the_builtin_write_ask_is_translated() {
    assert_eq!(ask_title("write /etc/hosts · outside workspace", true), "写入 /etc/hosts · 工作区外");
    assert_eq!(ask_title("write /etc/hosts · outside workspace", false), "write /etc/hosts · outside workspace");
    assert_eq!(ask_title("run rm -rf", true), "run rm -rf");
    assert_eq!(option_name("deny", "Deny", true), "拒绝");
    assert_eq!(option_name("allow", "Allow write", true), "允许写入");
    assert_eq!(option_name("allow", "Allow once", true), "Allow once");
    assert_eq!(option_name("deny", "Deny", false), "Deny");
}

#[test]
fn ask_keys_move_answer_and_cancel() {
    assert_eq!(ask_step(0, 3, key(KeyCode::Up, 0)), AskStep::Highlight(2));
    assert_eq!(ask_step(2, 3, key(KeyCode::Down, 0)), AskStep::Highlight(0));
    assert_eq!(ask_step(1, 3, key(KeyCode::Enter, 0)), AskStep::Answer(1));
    assert_eq!(ask_step(0, 0, key(KeyCode::Enter, 0)), AskStep::Cancel);
    assert_eq!(ask_step(0, 3, key(KeyCode::Esc, 0)), AskStep::Cancel);
    assert_eq!(ask_step(0, 3, key(KeyCode::Char('c'), CONTROL | SHIFT)), AskStep::Cancel);
    assert_eq!(ask_step(0, 3, key(KeyCode::Char('c'), 0)), AskStep::Keep);
}

#[test]
fn the_form_pane_scrolls_without_touching_a_text_field() {
    assert_eq!(form_pane_scroll(3, KeyCode::PageUp, true), Some(0));
    assert_eq!(form_pane_scroll(3, KeyCode::PageDown, true), Some(8));
    assert_eq!(form_pane_scroll(3, KeyCode::Home, true), None);
    assert_eq!(form_pane_scroll(3, KeyCode::End, false), Some(usize::MAX));
    assert_eq!(form_pane_scroll(3, KeyCode::Char('x'), false), None);
}
