use martty::keys::{KeyCode, KeyEventKind};
use martty::paste::{paste_route, PasteRoute};

#[test]
fn leaked_key_reports_replay_as_keys_without_releases() {
    match paste_route("\u{1b}[97u\u{1b}[98;1:3u\u{1b}[13u", false, None) {
        PasteRoute::Keys(keys) => {
            assert_eq!(keys.len(), 2);
            assert_eq!(keys[0].code, KeyCode::Char('a'));
            assert_eq!(keys[1].code, KeyCode::Enter);
            assert!(keys.iter().all(|k| k.kind != KeyEventKind::Release));
        }
        _ => panic!("expected keys"),
    }
}

#[test]
fn an_open_form_takes_the_paste_verbatim() {
    assert!(matches!(paste_route("a\r\nb", true, Some((true, 0))), PasteRoute::Form(t) if t == "a\r\nb"));
}

#[test]
fn a_searchable_select_takes_printable_text_up_to_the_cap() {
    assert!(matches!(paste_route("ab\tc\n", false, Some((true, 0))), PasteRoute::Search(t) if t == "abc"));
    assert!(matches!(paste_route("abcdef", false, Some((true, 253))), PasteRoute::Search(t) if t == "abc"));
    assert!(matches!(paste_route("abc", false, Some((true, 300))), PasteRoute::Search(t) if t.is_empty()));
    assert!(matches!(paste_route("abc", false, Some((false, 0))), PasteRoute::Dropped));
}

#[test]
fn the_composer_keeps_lines_with_unix_endings() {
    assert!(matches!(paste_route("a\r\nb\rc\nd\r\r\n", false, None), PasteRoute::Composer(t) if t == "a\nb\nc\nd\n\n"));
    assert!(matches!(paste_route("", false, None), PasteRoute::Composer(t) if t.is_empty()));
}
