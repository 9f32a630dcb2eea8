use martty::chrome::{
    badge_image_id, badge_pixels_accepted, badge_session, crow_cli_rows, logo_layout, split_row, syntax_token,
    LogoLayout, ART_SPLIT, ART_WIDTH,
};

#[test]
fn the_wordmark_rows_are_rectangular() {
    let rows = crow_cli_rows();
    assert_eq!(rows.len(), 7);
    for row in rows {
        assert_eq!(row.chars().count(), ART_WIDTH);
    }
}

#[test]
fn a_row_splits_at_the_crow_column() {
    let (crow, cli) = split_row("abcdef", 4);
    assert_eq!((crow.as_str(), cli.as_str()), ("abcd", "ef"));
    let (all, none) = split_row("ab", 10);
    assert_eq!((all.as_str(), none.as_str()), ("ab", ""));
    let (left, right) = split_row(crow_cli_rows()[2], ART_SPLIT);
    assert_eq!(left.chars().count(), ART_SPLIT);
    assert_eq!(right.chars().count(), ART_WIDTH - ART_SPLIT);
}

#[test]
fn the_layout_degrades_with_the_width() {
    assert_eq!(logo_layout(100), LogoLayout::Art { pad: 19 });
    assert_eq!(logo_layout(64), LogoLayout::Art { pad: 1 });
    assert_eq!(logo_layout(63), LogoLayout::Wordmark { pad: 27 });
    assert_eq!(logo_layout(8), LogoLayout::Wordmark { pad: 0 });
    assert_eq!(logo_layout(7), LogoLayout::Nothing);
}

#[test]
fn fence_labels_name_grammars() {
    assert_eq!(syntax_token("  Rust "), "rust");
    assert_eq!(syntax_token("TypeScript"), "javascript");
    assert_eq!(syntax_token("tsx"), "javascript");
    assert_eq!(syntax_token("console"), "bash");
    assert_eq!(syntax_token(""), "");
}

#[test]
fn badges_know_their_session_and_image_id() {
    assert_eq!(badge_session("badge:session-1:x").as_deref(), Some("session-1:x"));
    assert_eq!(badge_session("nocolon"), None);
    assert_eq!(badge_image_id(0), 0x6000_0000);
    assert_eq!(badge_image_id(0xffff_ffff_ffff_ffff), 0x6fff_ffff);
    assert!(badge_pixels_accepted(10, "image/png", Some((16, 16)), true));
    assert!(!badge_pixels_accepted(700_001, "image/png", Some((16, 16)), true));
    assert!(!badge_pixels_accepted(10, "image/jpeg", Some((16, 16)), true));
    assert!(!badge_pixels_accepted(10, "image/png", Some((0, 16)), true));
    assert!(!badge_pixels_accepted(10, "image/png", Some((257, 16)), true));
    assert!(!badge_pixels_accepted(10, "image/png", None, true));
    assert!(!badge_pixels_accepted(10, "image/png", Some((1, 1)), false));
}
