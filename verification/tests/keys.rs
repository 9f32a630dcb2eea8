use martty::keys::{decode_csi_u_key, decode_leaked_csi_u_keys, parse_decimal_chars, KeyCode, KeyEvent, KeyEventKind, ALT, CONTROL, SHIFT};

fn params(s: &str) -> Vec<char> {
    s.chars().collect()
}

fn press(code: KeyCode, modifiers: u8) -> KeyEvent {
    KeyEvent { code, modifiers, kind: KeyEventKind::Press }
}

#[test]
fn a_bare_codepoint_is_a_press_without_modifiers() {
    assert_eq!(decode_csi_u_key(&params("97")), Some(press(KeyCode::Char('a'), 0)));
    assert_eq!(decode_csi_u_key(&params("13")), Some(press(KeyCode::Enter, 0)));
    assert_eq!(decode_csi_u_key(&params("27")), Some(press(KeyCode::Esc, 0)));
    assert_eq!(decode_csi_u_key(&params("127")), Some(press(KeyCode::Backspace, 0)));
    assert_eq!(decode_csi_u_key(&params("9")), Some(press(KeyCode::Tab, 0)));
}

#[test]
fn the_modifier_mask_is_one_plus_the_bits() {
    assert_eq!(decode_csi_u_key(&params("9;2")), Some(press(KeyCode::BackTab, SHIFT)));
    assert_eq!(decode_csi_u_key(&params("97;5")), Some(press(KeyCode::Char('a'), CONTROL)));
    assert_eq!(decode_csi_u_key(&params("97;7")), Some(press(KeyCode::Char('a'), ALT | CONTROL)));
    assert_eq!(decode_csi_u_key(&params("97:65;1")), Some(press(KeyCode::Char('a'), 0)));
}

#[test]
fn the_event_kind_follows_the_mask() {
    let release = decode_csi_u_key(&params("97;1:3")).unwrap();
    assert_eq!(release.kind, KeyEventKind::Release);
    let repeat = decode_csi_u_key(&params("97;1:2")).unwrap();
    assert_eq!(repeat.kind, KeyEventKind::Repeat);
    assert_eq!(decode_csi_u_key(&params("97;1:1")).unwrap().kind, KeyEventKind::Press);
}

#[test]
fn malformed_reports_are_refused() {
    for bad in ["", "x", "97;0", "97;1:4", "97;1:1:1", "97;1;1", "55296", "97;", "+", "97;-1", "4294967296"] {
        assert_eq!(decode_csi_u_key(&params(bad)), None, "must refuse {bad:?}");
    }
    assert_eq!(decode_csi_u_key(&params("+97")), Some(press(KeyCode::Char('a'), 0)));
}

#[test]
fn a_paste_made_only_of_reports_becomes_keys() {
    assert_eq!(
        decode_leaked_csi_u_keys("\u{1b}[97u\u{1b}[13;5u"),
        Some(vec![press(KeyCode::Char('a'), 0), press(KeyCode::Enter, CONTROL)])
    );
}

#[test]
fn a_paste_with_anything_else_stays_a_paste() {
    assert_eq!(decode_leaked_csi_u_keys(""), None);
    assert_eq!(decode_leaked_csi_u_keys("hello"), None);
    assert_eq!(decode_leaked_csi_u_keys("\u{1b}[97u tail"), None);
    assert_eq!(decode_leaked_csi_u_keys("\u{1b}[97"), None);
    assert_eq!(decode_leaked_csi_u_keys("\u{1b}[97;0u"), None);
}

#[test]
fn decimals_parse_like_str_parse_of_an_unsigned_type() {
    let chars = |s: &str| s.chars().collect::<Vec<char>>();
    assert_eq!(parse_decimal_chars(&chars("42"), 100), Some(42));
    assert_eq!(parse_decimal_chars(&chars("+7"), 100), Some(7));
    assert_eq!(parse_decimal_chars(&chars("101"), 100), None, "above the maximum");
    assert_eq!(parse_decimal_chars(&chars("100"), 100), Some(100));
    assert_eq!(parse_decimal_chars(&chars(""), 100), None);
    assert_eq!(parse_decimal_chars(&chars("+"), 100), None);
    assert_eq!(parse_decimal_chars(&chars("-1"), 100), None);
    assert_eq!(parse_decimal_chars(&chars("1a"), 100), None);
    assert_eq!(parse_decimal_chars(&chars("18446744073709551615"), u64::MAX), Some(u64::MAX));
}
