use martty::mentions::{file_menu_step, FileMenuStep};

#[test]
fn vim_normal_mode_and_the_slash_menu_close_the_browser() {
    assert_eq!(file_menu_step(true, false, true, Some("@a"), true, None), FileMenuStep::Close);
    assert_eq!(file_menu_step(false, true, true, Some("@a"), false, None), FileMenuStep::Close);
    assert_eq!(file_menu_step(false, false, false, Some("@a"), true, None), FileMenuStep::Close);
}

#[test]
fn a_dismissed_token_stays_closed_until_it_changes() {
    assert_eq!(file_menu_step(false, false, true, Some("@src"), false, Some("@src")), FileMenuStep::StayClosed);
    assert_eq!(file_menu_step(false, false, true, Some("@src/"), false, Some("@src")), FileMenuStep::Open);
    assert_eq!(file_menu_step(false, false, true, Some("@src"), false, None), FileMenuStep::Open);
    assert_eq!(file_menu_step(false, false, true, Some("@src"), true, Some("@src")), FileMenuStep::Follow);
    assert_eq!(file_menu_step(false, false, true, None, true, Some("@src")), FileMenuStep::Forget);
}
