use martty::auth::{auth_picker, auth_start, AuthChoice, AuthStart};
use martty::picker::PickerKind;

fn strings(v: &[&str]) -> Vec<String> {
    v.iter().map(|s| s.to_string()).collect()
}

fn method(id: &str, rest: &str) -> AuthStart {
    AuthStart::Method { method_id: id.to_string(), rest: rest.to_string() }
}

#[test]
fn auth_refuses_in_the_demo_and_while_signing_in() {
    let ms = strings(&["api-key"]);
    assert_eq!(auth_start(true, false, &ms, None, "x"), AuthStart::Demo);
    assert_eq!(auth_start(false, true, &ms, None, "x"), AuthStart::Pending);
    assert_eq!(auth_start(false, false, &vec![], None, "x"), AuthStart::NoMethods);
}

#[test]
fn a_bare_auth_with_several_methods_opens_the_picker() {
    let ms = strings(&["api-key", "oauth"]);
    assert_eq!(auth_start(false, false, &ms, None, "   "), AuthStart::Pick);
    assert_eq!(auth_start(false, false, &strings(&["api-key"]), None, ""), method("api-key", ""));
}

#[test]
fn the_first_word_picks_a_method_only_when_one_has_that_id() {
    let ms = strings(&["api-key", "gateway"]);
    assert_eq!(auth_start(false, false, &ms, None, " gateway  https://x  sk-1 "), method("gateway", "https://x  sk-1"));
    assert_eq!(auth_start(false, false, &ms, None, "gateway"), method("gateway", ""));
    assert_eq!(auth_start(false, false, &ms, Some("gateway"), "sk-123"), method("gateway", "sk-123"));
    assert_eq!(auth_start(false, false, &ms, None, "sk-123 more"), method("api-key", "sk-123 more"));
    assert_eq!(auth_start(false, false, &ms, None, "api-key\tsk"), method("api-key", "sk"));
}

#[test]
fn the_sign_in_picker_lists_methods_on_the_one_in_effect() {
    assert!(auth_picker(&vec![], None, false).is_none());
    let ms = vec![
        AuthChoice { id: "a".into(), name: Some("API key".into()), kind: "env_var".into() },
        AuthChoice { id: "b".into(), name: None, kind: "terminal".into() },
    ];
    let p = auth_picker(&ms, Some("b"), false).unwrap();
    assert_eq!(p.kind, PickerKind::Auth);
    assert_eq!(p.title, " sign in · enter select · esc close ");
    assert_eq!(p.items[0].label, "API key");
    assert_eq!(p.items[1].label, "b");
    assert_eq!(p.items[1].meta, "terminal");
    assert_eq!(p.sel, 1);
    let p = auth_picker(&ms, Some("zzz"), true).unwrap();
    assert_eq!(p.sel, 0);
    assert_eq!(p.title, " 登录 · enter 选择 · esc 关闭 ");
}
