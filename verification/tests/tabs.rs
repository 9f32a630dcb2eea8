use martty::tabs::{can_switch, close_live, close_tip, open_parked, session_tabs, session_was_running, switch_parked, tab_index_of, TabFacts};

fn facts(id: &str, title: Option<&str>) -> TabFacts {
    TabFacts {
        id: id.to_owned(),
        title: title.map(str::to_owned),
        running: false,
        prompt_pending: false,
        completed_unseen: false,
        ask_pending: false,
    }
}

/// The tab order: parked with the live one at `current`.
fn order(parked: &[&'static str], live: &'static str, current: usize) -> Vec<&'static str> {
    let mut v = parked.to_vec();
    v.insert(current, live);
    v
}

#[test]
fn switching_keeps_the_tab_order() {
    let mut parked = vec!["a", "c", "d"];
    let before = order(&parked, "b", 1);
    assert!(can_switch(1, parked.len(), 3));
    let target = switch_parked(&mut parked, 1, 3, "b");
    assert_eq!(target, "d");
    assert_eq!(order(&parked, target, 3), before);
}

#[test]
fn switching_back_restores_the_strip() {
    let mut parked = vec!["a", "c", "d"];
    let target = switch_parked(&mut parked, 1, 0, "b");
    assert_eq!(target, "a");
    let back = switch_parked(&mut parked, 0, 1, target);
    assert_eq!(back, "b");
    assert_eq!(parked, vec!["a", "c", "d"]);
}

#[test]
fn a_switch_to_the_live_tab_or_past_the_end_goes_nowhere() {
    assert!(!can_switch(1, 3, 1));
    assert!(!can_switch(1, 3, 4));
    assert!(can_switch(3, 3, 0));
}

#[test]
fn a_new_session_opens_last() {
    let mut parked = vec!["a", "c"];
    let fresh_at = open_parked(&mut parked, 1, "b");
    assert_eq!(parked, vec!["a", "b", "c"]);
    assert_eq!(fresh_at, 3);
}

#[test]
fn the_strip_splices_the_live_tab_in() {
    let mut busy = facts("parked-session-2", None);
    busy.prompt_pending = true;
    busy.completed_unseen = true;
    let parked = vec![facts("p1", Some("First")), busy];
    let mut live = facts("live-session", Some("   "));
    live.completed_unseen = true;
    live.ask_pending = true;
    let tabs = session_tabs(&parked, &live, 1);
    assert_eq!(tabs.iter().map(|t| t.label.as_str()).collect::<Vec<_>>(), vec!["First", "live-ses", "parked-s"]);
    assert!(tabs[1].current && !tabs[0].current && !tabs[2].current);
    assert!(!tabs[1].completed_unseen, "the viewed tab is never unseen");
    assert!(tabs[1].ask_pending);
    assert!(tabs[2].running && tabs[2].completed_unseen);
}

#[test]
fn tab_indexes_count_the_live_tab() {
    let parked = vec![facts("a", None), facts("c", None)];
    assert_eq!(tab_index_of("b", &parked, 1, "b"), Some(1));
    assert_eq!(tab_index_of("b", &parked, 1, "a"), Some(0));
    assert_eq!(tab_index_of("b", &parked, 1, "c"), Some(2));
    assert_eq!(tab_index_of("b", &parked, 1, "z"), None);
}

#[test]
fn a_session_was_running_by_its_own_state() {
    let mut p = facts("p", None);
    p.running = true;
    let parked = vec![facts("q", None), p];
    assert!(session_was_running("live", "live", true, &parked));
    assert!(!session_was_running("live", "live", false, &parked));
    assert!(session_was_running("p", "live", false, &parked));
    assert!(!session_was_running("q", "live", true, &parked));
}

#[test]
fn closing_the_live_tab_views_the_right_neighbour_else_the_left() {
    let mut parked = vec!["a", "c", "d"];
    // strip a [b] c d: closing b views c at index 1
    assert_eq!(close_live(&mut parked, 1), Some(("c", 1)));
    assert_eq!(parked, vec!["a", "d"]);
    // strip a d [e]: closing e views d at index 1
    let mut parked = vec!["a", "d"];
    assert_eq!(close_live(&mut parked, 2), Some(("d", 1)));
    assert_eq!(parked, vec!["a"]);
    let mut parked: Vec<&str> = vec![];
    assert_eq!(close_live(&mut parked, 0), None);
}

#[test]
fn the_close_tip_names_what_was_dropped() {
    assert_eq!(close_tip("0123456789abcdef", false, 0, false, false, false), "closed 01234567");
    assert_eq!(
        close_tip("sess", true, 3, true, true, false),
        "closed sess · its running turn keeps settling, 3 queued dropped, draft dropped, pending ask cancelled"
    );
    assert_eq!(close_tip("sess", false, 0, true, false, true), "已关闭 sess · draft dropped");
}
