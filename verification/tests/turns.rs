use martty::turns::TurnBoard;

#[test]
fn an_idle_settles_only_an_armed_turn() {
    let mut board: TurnBoard<u32> = TurnBoard::new();
    assert_eq!(board.settle("s1"), None, "a heartbeat with no turn waiting");
    board.arm("s1", 7);
    board.arm("s2", 8);
    assert_eq!(board.settle("s1"), Some(7));
    assert_eq!(board.settle("s1"), None, "the next idle is a heartbeat");
    assert_eq!(board.stops.len(), 1);
}

#[test]
fn arming_again_replaces_the_stop_and_disarming_forgets_it() {
    let mut board: TurnBoard<&str> = TurnBoard::new();
    board.arm("s", "first");
    board.arm("s", "second");
    assert_eq!(board.stops.len(), 1);
    assert_eq!(board.settle("s"), Some("second"));
    board.arm("t", "x");
    board.disarm("t");
    assert_eq!(board.settle("t"), None);
}
