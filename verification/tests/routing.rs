use martty::keys::{KeyCode, KeyEvent, KeyEventKind, ALT, CONTROL, SHIFT};
use martty::pointer::{
    click_route, is_double_click, jump_plan, strip_offset_after_click, wheel_target, ClickFacts, ClickRoute,
    JumpPlan, WheelFacts, WheelTarget,
};
use martty::route::{
    chord_after_tick, ctrl_c_press, enter_route, esc_outcome, key_route, scroll_offset, step_clamped, view_step,
    ApprovalDecision, CtrlCChord, CtrlCOutcome, EnterRoute, EscAction, EscFacts, FileNav, KeyFacts, KeyRoute,
    StripKey, ViewStep,
};

fn key(code: KeyCode, modifiers: u8) -> KeyEvent {
    KeyEvent { code, modifiers, kind: KeyEventKind::Press }
}

fn calm() -> KeyFacts {
    KeyFacts {
        approval_pending: false,
        elicitation: false,
        permission_ask: false,
        view_overlay: false,
        select_overlay: false,
        slider_overlay: false,
        picker: false,
        plugin_tree: false,
        agent_selection: false,
        viewing_subagent: false,
        vim_active: false,
        file_menu: false,
        queue_selection: None,
        queue_len: 0,
        queue_editing: false,
        input_empty: true,
        history_active: false,
        has_subagents: false,
        slash_open: false,
        slash_len: 0,
        slash_sel: 0,
        slash_dismissed: false,
    }
}

#[test]
fn the_topmost_modal_takes_the_key() {
    let mut f = calm();
    f.picker = true;
    f.select_overlay = true;
    assert_eq!(key_route(&f, key(KeyCode::Char('x'), 0), false), KeyRoute::SelectOverlay);
    f.elicitation = true;
    assert_eq!(key_route(&f, key(KeyCode::Esc, 0), false), KeyRoute::Elicitation);
    f.approval_pending = true;
    assert_eq!(key_route(&f, key(KeyCode::Char('2'), ALT), false), KeyRoute::Approval(ApprovalDecision::AllowFuture));
    assert_eq!(key_route(&f, key(KeyCode::Char('4'), ALT), false), KeyRoute::Elicitation);
    assert_eq!(ApprovalDecision::Reject.wire_name(), "reject");
    assert_eq!(ApprovalDecision::AllowVersion.wire_name(), "allow-version");
}

#[test]
fn the_agent_strip_and_subagent_view_keys() {
    let mut f = calm();
    f.agent_selection = true;
    assert_eq!(key_route(&f, key(KeyCode::Left, 0), false), KeyRoute::AgentStrip(StripKey::Previous));
    assert_eq!(key_route(&f, key(KeyCode::Enter, 0), false), KeyRoute::AgentStrip(StripKey::Confirm));
    assert_eq!(key_route(&f, key(KeyCode::Left, SHIFT), false), KeyRoute::AgentStrip(StripKey::Ignore));
    let mut f = calm();
    f.viewing_subagent = true;
    assert_eq!(key_route(&f, key(KeyCode::Char('q'), 0), false), KeyRoute::LeaveSubagent);
    assert_eq!(key_route(&f, key(KeyCode::Down, 0), false), KeyRoute::BeginAgentNavigation);
    assert_eq!(key_route(&f, key(KeyCode::PageUp, 0), false), KeyRoute::SubagentView);
}

#[test]
fn vim_is_offered_the_key_first_then_the_menus() {
    let mut f = calm();
    f.vim_active = true;
    f.file_menu = true;
    assert_eq!(key_route(&f, key(KeyCode::Up, 0), false), KeyRoute::OfferVim);
    assert_eq!(key_route(&f, key(KeyCode::Up, 0), true), KeyRoute::FileMenu(FileNav::Up));
    assert_eq!(key_route(&f, key(KeyCode::Char('h'), CONTROL), true), KeyRoute::FileMenu(FileNav::ToggleHidden));
    assert_eq!(key_route(&f, key(KeyCode::Tab, 0), true), KeyRoute::FileMenuDrill);
    assert_eq!(key_route(&f, key(KeyCode::Char('a'), 0), true), KeyRoute::Classify, "typing goes through");
}

#[test]
fn the_queue_selector_wraps_and_edits() {
    let mut f = calm();
    f.queue_selection = Some(0);
    f.queue_len = 3;
    assert_eq!(key_route(&f, key(KeyCode::Up, 0), false), KeyRoute::QueueSelect(2));
    assert_eq!(key_route(&f, key(KeyCode::Down, 0), false), KeyRoute::QueueSelect(1));
    f.queue_selection = Some(2);
    assert_eq!(key_route(&f, key(KeyCode::Down, 0), false), KeyRoute::QueueSelect(0));
    f.queue_selection = Some(7);
    assert_eq!(key_route(&f, key(KeyCode::Enter, 0), false), KeyRoute::EditQueued(2));
    assert_eq!(key_route(&f, key(KeyCode::Esc, 0), false), KeyRoute::CloseQueueSelection);
    f.queue_len = 0;
    assert_eq!(key_route(&f, key(KeyCode::Up, 0), false), KeyRoute::DropQueueSelection);
}

#[test]
fn the_composer_keys_below_the_modals() {
    let mut f = calm();
    f.queue_editing = true;
    assert_eq!(key_route(&f, key(KeyCode::Char('d'), CONTROL), false), KeyRoute::ConfirmQueueDelete);
    let mut f = calm();
    f.has_subagents = true;
    assert_eq!(key_route(&f, key(KeyCode::Down, 0), false), KeyRoute::BeginAgentNavigation);
    f.input_empty = false;
    assert_eq!(key_route(&f, key(KeyCode::Down, 0), false), KeyRoute::Classify);
    let mut f = calm();
    f.slash_open = true;
    f.slash_len = 4;
    f.slash_sel = 3;
    assert_eq!(key_route(&f, key(KeyCode::Down, 0), false), KeyRoute::SlashSelect(0));
    f.slash_sel = 0;
    assert_eq!(key_route(&f, key(KeyCode::Up, 0), false), KeyRoute::SlashSelect(3));
    let mut f = calm();
    f.slash_dismissed = true;
    assert_eq!(key_route(&f, key(KeyCode::Up, 0), false), KeyRoute::HistoryPrevFromDraft);
    assert_eq!(key_route(&f, key(KeyCode::Down, 0), false), KeyRoute::HistoryNext);
}

fn esc_facts() -> EscFacts {
    EscFacts {
        elicitation: false,
        permission_ask: false,
        picker: false,
        viewing_subagent: false,
        chat_selection: false,
        input_selection: false,
        idle: true,
        slash_open: false,
        queue_edit: None,
        input_empty: true,
    }
}

#[test]
fn esc_walks_down_its_ladder() {
    let mut f = esc_facts();
    assert_eq!(esc_outcome(&f).action, EscAction::IdleHint);
    f.input_empty = false;
    assert_eq!(esc_outcome(&f).action, EscAction::ClearDraft);
    f.idle = false;
    assert_eq!(esc_outcome(&f).action, EscAction::Interrupt);
    f.chat_selection = true;
    let o = esc_outcome(&f);
    assert_eq!(o.action, EscAction::Interrupt, "a running turn is interrupted even with a highlight");
    assert!(o.clear_selections);
    f.idle = true;
    assert_eq!(esc_outcome(&f).action, EscAction::DropSelection);
    f.chat_selection = false;
    f.queue_edit = Some(true);
    assert_eq!(esc_outcome(&f).action, EscAction::KeepEditing);
    f.queue_edit = Some(false);
    assert_eq!(esc_outcome(&f).action, EscAction::CancelQueueEdit { dispatch_next: true });
    f.slash_open = true;
    assert_eq!(esc_outcome(&f).action, EscAction::DismissSlashMenu);
    f.picker = true;
    let o = esc_outcome(&f);
    assert_eq!(o.action, EscAction::ClosePicker);
    assert!(!o.clear_selections);
    f.elicitation = true;
    assert_eq!(esc_outcome(&f).action, EscAction::CancelElicitation);
}

#[test]
fn two_ctrl_c_presses_quit() {
    let (first, armed) = ctrl_c_press(false, true, None, 1000);
    assert_eq!(first, CtrlCOutcome::Armed { remaining: 1 });
    assert_eq!(armed, Some(CtrlCChord { started_ms: 1000, presses: 1 }));
    let kept = chord_after_tick(armed, 2400);
    assert_eq!(kept, armed);
    assert_eq!(ctrl_c_press(false, true, kept, 2400), (CtrlCOutcome::Quit, None));
    assert_eq!(chord_after_tick(armed, 2501), None, "the window lapsed");
    assert_eq!(ctrl_c_press(false, false, armed, 1100), (CtrlCOutcome::ClearDraft, None));
    assert_eq!(ctrl_c_press(true, true, armed, 1100), (CtrlCOutcome::Ignored, None));
}

#[test]
fn view_keys_scroll_and_close() {
    assert_eq!(view_step(key(KeyCode::PageDown, SHIFT)), ViewStep::Scroll(5));
    assert_eq!(view_step(key(KeyCode::Up, 0)), ViewStep::Scroll(-1));
    assert_eq!(view_step(key(KeyCode::End, 0)), ViewStep::Bottom);
    assert_eq!(view_step(key(KeyCode::Enter, 0)), ViewStep::Close(true));
    assert_eq!(view_step(key(KeyCode::Esc, 0)), ViewStep::Close(false));
    assert_eq!(view_step(key(KeyCode::Esc, CONTROL)), ViewStep::Ignore);
    assert_eq!(scroll_offset(2, -5), 0);
    assert_eq!(scroll_offset(2, 5), 7);
    assert_eq!(scroll_offset(usize::MAX - 1, 5), usize::MAX);
    assert_eq!(scroll_offset(usize::MAX, i64::MIN), usize::MAX - (1usize << 63));
    assert_eq!(step_clamped(3, 5, 9), 4);
    assert_eq!(step_clamped(3, 0, 9), 0);
    assert_eq!(step_clamped(3, 5, -1), 2);
}

#[test]
fn enter_prefers_the_menu_then_the_queue() {
    assert_eq!(enter_route(3, 9, true, true, true, 2), EnterRoute::AcceptSlash(2));
    assert_eq!(enter_route(0, 0, true, true, true, 2), EnterRoute::SaveQueueEdit);
    assert_eq!(enter_route(0, 0, false, true, true, 2), EnterRoute::SendQueueHead);
    assert_eq!(enter_route(0, 0, false, true, false, 2), EnterRoute::Submit);
    assert_eq!(enter_route(0, 0, false, true, true, 0), EnterRoute::Submit);
}

fn wheel() -> WheelFacts {
    WheelFacts {
        elicitation: false,
        permission_ask: false,
        plugin_tree: false,
        view_overlay: false,
        select_overlay: false,
        picker: false,
    }
}

#[test]
fn the_wheel_scrolls_the_topmost_surface() {
    let mut f = wheel();
    assert_eq!(wheel_target(&f, true), WheelTarget::Chat(3));
    assert_eq!(wheel_target(&f, false), WheelTarget::Chat(-3));
    f.picker = true;
    assert_eq!(wheel_target(&f, false), WheelTarget::Picker(1));
    f.select_overlay = true;
    assert_eq!(wheel_target(&f, true), WheelTarget::SelectForm { up: true });
    f.permission_ask = true;
    assert_eq!(wheel_target(&f, true), WheelTarget::PermissionAsk(-1));
    f.elicitation = true;
    assert_eq!(wheel_target(&f, false), WheelTarget::Elicitation(3));
}

fn click() -> ClickFacts {
    ClickFacts {
        tab: None,
        slot_action: None,
        tool: None,
        elicitation: false,
        viewing_subagent: false,
        jump_button: false,
        expand_button: false,
        in_composer: false,
        in_chat: false,
    }
}

#[test]
fn a_click_hits_the_strip_first_and_the_chat_last() {
    let mut f = click();
    assert_eq!(click_route(&f), ClickRoute::DismissSelection);
    f.in_chat = true;
    assert_eq!(click_route(&f), ClickRoute::ChatPress);
    f.in_composer = true;
    assert_eq!(click_route(&f), ClickRoute::PlaceCaret);
    f.viewing_subagent = true;
    assert_eq!(click_route(&f), ClickRoute::ChatPress, "the composer is hidden behind a subagent view");
    f.tool = Some(4);
    assert_eq!(click_route(&f), ClickRoute::ToggleTool(4));
    f.tab = Some(1);
    assert_eq!(click_route(&f), ClickRoute::SwitchTab(1));
}

#[test]
fn clicking_an_edge_tab_nudges_the_strip() {
    let visible = vec![2, 3, 4];
    assert_eq!(strip_offset_after_click(2, &visible, 8, 2), 1);
    assert_eq!(strip_offset_after_click(4, &visible, 8, 2), 3);
    assert_eq!(strip_offset_after_click(3, &visible, 8, 2), 2);
    assert_eq!(strip_offset_after_click(4, &vec![3, 4], 5, 2), 2, "the last tab has no neighbour to show");
    assert_eq!(strip_offset_after_click(0, &vec![0, 1], 5, 0), 0);
}

#[test]
fn double_clicks_come_quickly_and_close_together() {
    assert!(is_double_click(Some((1000, 10, 5)), 1399, 11, 5));
    assert!(!is_double_click(Some((1000, 10, 5)), 1400, 10, 5));
    assert!(!is_double_click(Some((1000, 10, 5)), 1100, 12, 5));
    assert!(!is_double_click(Some((1000, 10, 5)), 1100, 10, 6));
    assert!(!is_double_click(None, 1100, 10, 5));
}

#[test]
fn the_jump_button_walks_back_through_prompts_and_wraps() {
    let users = vec![(1, 0), (5, 30), (9, 80)];
    assert_eq!(jump_plan(&Vec::new(), None, 100, 20), None);
    assert_eq!(
        jump_plan(&users, None, 100, 20),
        Some(JumpPlan { cell: 9, from_newest: 1, scroll_up: 0, manual_top: None })
    );
    assert_eq!(
        jump_plan(&users, Some(9), 100, 20),
        Some(JumpPlan { cell: 5, from_newest: 2, scroll_up: 50, manual_top: Some(30) })
    );
    assert_eq!(
        jump_plan(&users, Some(5), 100, 20),
        Some(JumpPlan { cell: 1, from_newest: 3, scroll_up: 80, manual_top: Some(0) })
    );
    assert_eq!(jump_plan(&users, Some(1), 100, 20).unwrap().cell, 9, "the oldest wraps to the newest");
    assert_eq!(jump_plan(&users, Some(42), 100, 20).unwrap().cell, 9);
}

#[test]
fn ctrl_c_puts_the_draft_into_history() {
    let mut recall = martty::history::Recall {
        history: vec!["old".to_owned()],
        pos: None,
        stash: String::new(),
        buffer: "half typed".to_owned(),
    };
    let armed = Some(martty::route::CtrlCChord { started_ms: 10, presses: 1 });
    assert_eq!(martty::route::ctrl_c_on(&mut recall, false, armed, 20), (CtrlCOutcome::ClearDraft, None));
    assert_eq!(recall.history, vec!["old".to_owned(), "half typed".to_owned()]);
    assert_eq!(recall.buffer, "");
    assert_eq!(recall.pos, None);
    recall.history_prev();
    assert_eq!(recall.buffer, "half typed");
    let mut empty = martty::history::Recall { history: Vec::new(), pos: None, stash: String::new(), buffer: String::new() };
    let (first, chord) = martty::route::ctrl_c_on(&mut empty, false, None, 5);
    assert_eq!(first, CtrlCOutcome::Armed { remaining: 1 });
    assert!(empty.history.is_empty());
    assert_eq!(martty::route::ctrl_c_on(&mut empty, false, chord, 6).0, CtrlCOutcome::Quit);
}

#[test]
fn chat_scroll_resolves_the_top_sentinel_first() {
    assert_eq!(martty::route::chat_scroll_by(usize::MAX, 120, 20, 3), 103);
    assert_eq!(martty::route::chat_scroll_by(usize::MAX, 10, 20, 3), 3);
    assert_eq!(martty::route::chat_scroll_by(usize::MAX, 120, 20, -200), 0);
    assert_eq!(martty::route::chat_scroll_by(5, 120, 20, -2), 3);
    assert_eq!(martty::route::chat_scroll_by(5, 120, 20, -9), 0);
    assert_eq!(martty::route::chat_scroll_by(0, 0, 0, 4), 4);
}
