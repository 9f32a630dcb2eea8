use martty::info::{credentials_line, help_text, status_text, AuthFacts, AuthState, CredentialFacts, StatusFacts};
use martty::modes::{Modes, RunState};

fn auth(state: AuthState) -> AuthFacts {
    AuthFacts { state, method_name: None, method_id: None, message: None }
}

fn facts() -> StatusFacts {
    StatusFacts {
        zh: false,
        state: RunState::Idle,
        demo: false,
        connection_failed: false,
        attached: true,
        auth: auth(AuthState::Unknown),
        protocol_tag: None,
        session_bound: true,
        session_id: "s-1".to_owned(),
        server: None,
        model: "deepseek-v4".to_owned(),
        modes: Modes::default(),
        presets: Vec::new(),
    }
}

#[test]
fn the_status_text_lists_the_run_facts() {
    assert_eq!(
        status_text(&facts()),
        "- state · idle\n- acp · attached\n- session · s-1\n- model · deepseek-v4\n- agent ·  (default)\n- permission · Workspace Write\n- plan · off"
    );
}

#[test]
fn the_status_text_adds_the_optional_lines() {
    let mut f = facts();
    f.state = RunState::Running;
    f.protocol_tag = Some("acp2".to_owned());
    f.auth = AuthFacts {
        state: AuthState::Configured,
        method_name: None,
        method_id: Some("token".to_owned()),
        message: None,
    };
    f.server = Some("agent 1.0".to_owned());
    f.session_bound = false;
    f.modes.effort = Some("high".to_owned());
    f.modes.plan = true;
    f.modes.agent_preset = Some("code".to_owned());
    f.modes.sandbox = Some("read-only".to_owned());
    f.demo = true;
    f.zh = true;
    assert_eq!(
        status_text(&f),
        "- state · 工作中\n- acp · demo\n- protocol · acp2\n- auth · configured · token\n- session · unbound\n- server · agent 1.0\n- model · deepseek-v4\n- effort · high\n- agent · Code mode\n- permission · 只读\n- plan · on"
    );
}

#[test]
fn failed_sign_in_is_reported_with_its_message() {
    let mut f = facts();
    f.auth = auth(AuthState::Failed);
    f.connection_failed = true;
    let text = status_text(&f);
    assert!(text.starts_with("- state · idle\n- acp · failed\n- auth · sign-in failed · ACP authenticate failed\n"));
}

fn creds(state: AuthState) -> CredentialFacts {
    CredentialFacts { demo: false, auth: auth(state), has_credentials: false, credential_source: None }
}

#[test]
fn the_credentials_line_follows_the_sign_in() {
    let mut c = creds(AuthState::Unknown);
    assert_eq!(credentials_line(&c), "DEEPSEEK_API_KEY not set");
    c.has_credentials = true;
    assert_eq!(credentials_line(&c), "api key present");
    c.credential_source = Some("env".to_owned());
    assert_eq!(credentials_line(&c), "api key present · env");
    c.auth.state = AuthState::Configured;
    assert_eq!(credentials_line(&c), "ready · credential source not reported");
    c.auth.method_name = Some("GitHub".to_owned());
    c.auth.method_id = Some("gh".to_owned());
    assert_eq!(credentials_line(&c), "ACP authenticate · GitHub");
    c.auth.state = AuthState::NeedsAuth;
    assert_eq!(credentials_line(&c), "sign-in needed · GitHub · /auth");
    c.auth.state = AuthState::Failed;
    c.auth.message = Some("denied".to_owned());
    assert_eq!(credentials_line(&c), "sign-in failed · denied · /auth");
    c.auth.state = AuthState::SigningIn;
    assert_eq!(credentials_line(&c), "signing in — waiting for Agent response");
    c.demo = true;
    assert_eq!(credentials_line(&c), "demo mode (no API calls)");
}

#[test]
fn help_speaks_the_interface_language() {
    assert!(help_text(false).starts_with("- enter · send"));
    assert!(help_text(false).ends_with("end reason."));
    assert!(help_text(true).starts_with("- enter · 发送"));
    assert!(help_text(true).contains("/lang · 切换界面语言"));
}
