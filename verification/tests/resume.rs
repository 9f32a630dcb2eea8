use martty::resume::{local_miss_message, resumed_notice, session_list_plan, session_list_title, ListPlan};
use martty::pickers::SessionMatch;
use martty::staging::SessionListItem;

fn item(id: &str) -> SessionListItem {
    SessionListItem { id: id.to_string(), title: None, updated_at: None }
}

fn ids(v: &[SessionListItem]) -> Vec<&str> {
    v.iter().map(|s| s.id.as_str()).collect()
}

fn list(v: &[&str]) -> Vec<SessionListItem> {
    v.iter().map(|s| item(s)).collect()
}

#[test]
fn another_sessions_answer_is_ignored() {
    assert!(matches!(session_list_plan("s2", "s1", list(&["a"]), None, 10), ListPlan::Ignore));
}

#[test]
fn the_viewed_session_is_dropped_before_the_cap() {
    match session_list_plan("s1", "s1", list(&["a", "s1", "b", "c"]), None, 2) {
        ListPlan::Offer { warning, sessions } => {
            assert!(warning.is_none());
            assert_eq!(ids(&sessions), vec!["a", "b"]);
        }
        _ => panic!("expected a list"),
    }
    match session_list_plan("s1", "s1", list(&["s1"]), Some(""), 5) {
        ListPlan::Offer { warning, sessions } => {
            assert!(warning.is_none());
            assert!(sessions.is_empty());
        }
        _ => panic!("expected an empty list"),
    }
}

#[test]
fn a_prefix_resumes_the_one_session_it_names() {
    match session_list_plan("s1", "s1", list(&["abc1", "xyz", "s1"]), Some("ab"), 10) {
        ListPlan::Resume(id) => assert_eq!(id, "abc1"),
        _ => panic!("expected a resume"),
    }
    // the viewed session never matches
    match session_list_plan("s1", "s1", list(&["s1", "x"]), Some("s1"), 10) {
        ListPlan::Offer { warning, sessions } => {
            assert_eq!(warning.as_deref(), Some("no session matches “s1” — /resume lists them"));
            assert_eq!(ids(&sessions), vec!["x"]);
        }
        _ => panic!("expected a warning"),
    }
}

#[test]
fn an_ambiguous_prefix_warns_and_still_lists() {
    match session_list_plan("v", "v", list(&["ab1", "ab2", "c"]), Some("ab"), 10) {
        ListPlan::Offer { warning, sessions } => {
            assert_eq!(warning.as_deref(), Some("“ab” is ambiguous (2 matches) — /resume lists them"));
            assert_eq!(ids(&sessions), vec!["ab1", "ab2", "c"]);
        }
        _ => panic!("expected a warning"),
    }
}

#[test]
fn the_session_picker_title_counts_the_rows() {
    assert_eq!(session_list_title(3, false), " resume session · 3 sessions · enter select · esc close ");
    assert_eq!(session_list_title(12, true), " 恢复会话 · 12 个会话 · enter 选择 · esc 关闭 ");
}

#[test]
fn local_resume_misses_are_explained() {
    assert_eq!(local_miss_message("ab", &SessionMatch::Found(0), false), None);
    assert_eq!(local_miss_message("ab", &SessionMatch::NoMatch, false).as_deref(), Some("no session matches “ab” — /resume lists them"));
    assert_eq!(
        local_miss_message("ab", &SessionMatch::Ambiguous(3), false).as_deref(),
        Some("“ab” is ambiguous (3 matches) — /resume lists them")
    );
    assert_eq!(local_miss_message("ab", &SessionMatch::NoMatch, true).as_deref(), Some("没有会话匹配「ab」—— /resume 可列出全部"));
    assert_eq!(
        local_miss_message("ab", &SessionMatch::Ambiguous(2), true).as_deref(),
        Some("「ab」有 2 个匹配，存在歧义 —— /resume 可列出全部")
    );
}

#[test]
fn the_resume_notice_counts_turns_and_events() {
    assert_eq!(resumed_notice("s1", 1, 4, false), "⟲ resumed s1 · 1 turn · 4 events replayed — the next prompt continues it");
    assert_eq!(resumed_notice("s1", 3, 10, false), "⟲ resumed s1 · 3 turns · 10 events replayed — the next prompt continues it");
    assert_eq!(resumed_notice("s1", 2, 5, true), "⟲ 已恢复 s1 · 2 轮对话 · 回放 5 个事件 —— 下一条消息继续它");
}
