use martty::binds::{
    bind_target, close_requests, rebind_request, request_bind, retain_others, AwaitingBind, BindTarget, TabBind,
};

fn tab(id: &str, bound: bool) -> TabBind {
    TabBind { id: id.to_owned(), bound }
}

fn list(v: &[(&str, bool)]) -> Vec<AwaitingBind> {
    v.iter().map(|(id, open)| AwaitingBind { id: id.to_string(), open: *open }).collect()
}

fn ids(v: &[AwaitingBind]) -> Vec<(String, bool)> {
    v.iter().map(|a| (a.id.clone(), a.open)).collect()
}

#[test]
fn a_bind_answers_the_oldest_request_whichever_tab_is_viewed() {
    let parked = vec![tab("dsh-1", false), tab("old", true)];
    let mut awaiting = list(&[("dsh-1", true), ("dsh-2", true)]);
    let (target, head) = bind_target(true, &mut awaiting, "dsh-2", false, &parked, "s-100");
    assert_eq!(target, BindTarget::AwaitedParked(0));
    assert_eq!(head.unwrap().id, "dsh-1");
    assert_eq!(ids(&awaiting), vec![("dsh-2".to_owned(), true)]);
    let (target, _) = bind_target(true, &mut awaiting, "dsh-2", false, &parked, "s-101");
    assert_eq!(target, BindTarget::AwaitedLive);
    assert!(awaiting.is_empty());
}

#[test]
fn a_closed_tab_forgets_its_late_session() {
    let mut awaiting = list(&[("gone", false), ("live", true)]);
    let (target, _) = bind_target(true, &mut awaiting, "live", false, &Vec::new(), "s-1");
    assert_eq!(target, BindTarget::ClosedTab);
    assert_eq!(awaiting.len(), 1);
    let mut awaiting = list(&[("vanished", true)]);
    let (target, _) = bind_target(true, &mut awaiting, "live", true, &Vec::new(), "s-2");
    assert_eq!(target, BindTarget::AwaitedGone);
}

#[test]
fn the_startup_bind_never_takes_a_waiting_request() {
    let parked = vec![tab("asked", false), tab("startup", false)];
    let mut awaiting = list(&[("asked", true)]);
    let (target, head) = bind_target(false, &mut awaiting, "live", true, &parked, "s-0");
    assert_eq!(target, BindTarget::StartupParked(1), "the unbound tab that asked for nothing");
    assert!(head.is_none());
    assert_eq!(awaiting.len(), 1);
    let (target, _) = bind_target(false, &mut awaiting, "live", false, &vec![tab("asked", false)], "s-0");
    assert_eq!(target, BindTarget::StartupLive);
    let (target, _) = bind_target(false, &mut awaiting, "asked", false, &Vec::new(), "s-0");
    assert_eq!(target, BindTarget::StartupNewTab, "the viewed tab awaits its own bind");
}

#[test]
fn without_requests_a_bind_is_a_load_or_a_reconnect() {
    let parked = vec![tab("p", false), tab("s-9", false)];
    let mut awaiting = Vec::new();
    assert_eq!(bind_target(true, &mut awaiting, "live", true, &parked, "s-9").0, BindTarget::LoadedParked(1));
    assert_eq!(bind_target(true, &mut awaiting, "live", true, &parked, "s-1").0, BindTarget::ReboundLive);
    assert_eq!(bind_target(false, &mut awaiting, "live", true, &parked, "s-1").0, BindTarget::ReboundLive);
}

#[test]
fn the_request_list_keeps_its_order() {
    let mut awaiting = Vec::new();
    request_bind(&mut awaiting, "a");
    request_bind(&mut awaiting, "b");
    request_bind(&mut awaiting, "a");
    close_requests(&mut awaiting, "a");
    assert_eq!(
        ids(&awaiting),
        vec![("a".to_owned(), false), ("b".to_owned(), true), ("a".to_owned(), false)],
        "a closed tab's requests keep their places"
    );
    retain_others(&mut awaiting, "a");
    assert_eq!(ids(&awaiting), vec![("b".to_owned(), true)]);
    assert!(rebind_request(&mut awaiting, "c", true));
    assert_eq!(ids(&awaiting), vec![("c".to_owned(), true), ("b".to_owned(), true)]);
    assert!(!rebind_request(&mut awaiting, "b", false));
    assert_eq!(ids(&awaiting), vec![("c".to_owned(), true)]);
}
