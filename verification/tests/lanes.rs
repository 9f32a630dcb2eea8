use martty::lanes::{turn_interrupted, PromptLane};

#[test]
fn a_prompt_begins_at_once_on_an_idle_lane() {
    let mut lane: PromptLane<&str> = PromptLane::new();
    assert_eq!(lane.offer("p1", false), Some("p1"));
    assert!(!lane.has_waiting());
    lane.begin(Some(1));
    assert_eq!(lane.offer("p2", false), None);
    assert_eq!(lane.offer("p3", false), None);
    assert_eq!(lane.waiting, vec!["p2", "p3"]);
    assert_eq!(lane.next_ready(false), None, "a turn is in flight");
    assert_eq!(lane.finish(1), Some(false));
    assert_eq!(lane.next_ready(false), Some("p2"));
    lane.begin(Some(2));
    assert_eq!(lane.finish(2), Some(false));
    assert_eq!(lane.next_ready(false), Some("p3"));
    assert_eq!(lane.next_ready(false), None);
}

#[test]
fn sign_in_holds_the_lane() {
    let mut lane: PromptLane<&str> = PromptLane::new();
    assert_eq!(lane.offer("p1", true), None);
    assert_eq!(lane.next_ready(true), None);
    assert_eq!(lane.next_ready(false), Some("p1"));
}

#[test]
fn a_stale_finish_frees_nothing() {
    let mut lane: PromptLane<&str> = PromptLane::new();
    lane.begin(Some(7));
    assert_eq!(lane.finish(6), None);
    assert_eq!(lane.inflight, Some(7));
    lane.abort();
    assert_eq!(lane.finish(7), Some(true));
    assert_eq!(lane.inflight, None);
    lane.begin(Some(8));
    assert_eq!(lane.finish(8), Some(false));
}

#[test]
fn an_interrupted_turn_ends_interrupted_unless_it_stopped_normally() {
    assert!(turn_interrupted(true, false, false));
    assert!(turn_interrupted(true, true, true));
    assert!(!turn_interrupted(true, true, false));
    assert!(!turn_interrupted(false, false, true));
}
