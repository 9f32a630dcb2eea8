use martty::json::Json;
use martty::slash::{pet_tip, slash_action, PlanSwitch, SlashAction, SlashContext, DEFAULT_SESSION_LIST_LIMIT};

fn ctx() -> SlashContext {
    SlashContext {
        pet_visible: false,
        vim_active: true,
        demo: false,
        list_session: false,
        resume_session: false,
        load_session: false,
        plan_on: false,
        current_tab: 0,
        tab_count: 3,
        ui_plugins: vec!["board".to_owned()],
    }
}

fn plan_switch() -> PlanSwitch {
    PlanSwitch {
        config_id: "mode".to_owned(),
        value: Json::Str("plan".to_owned()),
        reset_value: Some(Json::Str("default".to_owned())),
    }
}

fn act(name: &str, arg: &str, c: &SlashContext) -> SlashAction {
    slash_action(name, arg, c, None)
}

#[test]
fn simple_commands_map_to_their_actions() {
    let c = ctx();
    assert!(matches!(act("help", "", &c), SlashAction::Help));
    assert!(matches!(act("keys", "", &c), SlashAction::Keys));
    assert!(matches!(act("lang", "zh", &c), SlashAction::SetLocale(l) if l == "zh"));
    assert!(matches!(act("clear", "", &c), SlashAction::Clear));
    assert!(matches!(act("quit", "", &c), SlashAction::Quit));
    assert!(matches!(act("theme", "iceberg", &c), SlashAction::Theme(t) if t == "iceberg"));
    assert!(matches!(act("status", "", &c), SlashAction::Status));
    assert!(matches!(act("close", "", &c), SlashAction::CloseSession));
    assert!(matches!(act("new", "opencode", &c), SlashAction::NewSession(h) if h == "opencode"));
    assert!(matches!(act("auth", "token", &c), SlashAction::Auth(a) if a == "token"));
    assert!(matches!(act("image", "a.png", &c), SlashAction::Image(p) if p == "a.png"));
    assert!(matches!(act("clip", "", &c), SlashAction::Clip(p) if p.is_empty()));
    assert!(matches!(act("plugins", "", &c), SlashAction::FetchStaticPlugins));
    assert!(matches!(act("cordis-plugins", "", &c), SlashAction::FetchCordisPlugins));
    assert!(matches!(act("frobnicate", "x", &c), SlashAction::Unknown(n) if n == "frobnicate"));
}

#[test]
fn an_empty_argument_opens_the_picker() {
    let c = ctx();
    assert!(matches!(act("harness", "", &c), SlashAction::OpenHarnessPicker));
    assert!(matches!(act("harness", "codex", &c), SlashAction::SwitchHarness(h) if h == "codex"));
    assert!(matches!(act("model", "", &c), SlashAction::OpenModelPicker));
    assert!(matches!(act("model", "gpt-5", &c), SlashAction::SetModel(m) if m == "gpt-5"));
    assert!(matches!(act("agent", "", &c), SlashAction::OpenModePicker));
    assert!(matches!(act("agent", "build", &c), SlashAction::SetMode(m) if m == "build"));
    assert!(matches!(act("effort", "", &c), SlashAction::FetchEfforts));
    assert!(matches!(act("effort", "high", &c), SlashAction::SetEffort(e) if e == "high"));
    assert!(matches!(act("permission", "", &c), SlashAction::OpenPermissionPicker));
    assert!(matches!(act("ui", "", &c), SlashAction::OpenUiPicker));
}

#[test]
fn pet_and_vim_follow_the_argument_or_toggle() {
    let c = ctx();
    assert!(matches!(act("liang", "", &c), SlashAction::Pet(true)));
    assert!(matches!(act("liang", "show", &c), SlashAction::Pet(true)));
    assert!(matches!(act("liang", "hide", &c), SlashAction::Pet(false)));
    assert!(matches!(act("vim", "", &c), SlashAction::Vim(false)));
    assert!(matches!(act("vim", "1", &c), SlashAction::Vim(true)));
    assert!(matches!(act("vim", "off", &c), SlashAction::Vim(false)));
    assert_eq!(pet_tip(true), "🤫 小难梁已召唤 — 安静，他在想 AGI · /liang 收回");
    assert_eq!(pet_tip(false), "小难梁去隆基市场买卡了 — /liang 再次召唤");
}

#[test]
fn ui_selects_only_a_listed_plugin() {
    let c = ctx();
    assert!(matches!(act("ui", "board", &c), SlashAction::SelectUiPlugin(p) if p == "board"));
    assert!(matches!(act("ui", "nope", &c), SlashAction::UnknownUiPlugin(p) if p == "nope"));
}

#[test]
fn session_steps_through_the_tabs_and_wraps() {
    let mut c = ctx();
    assert!(matches!(act("session", "", &c), SlashAction::SessionInfo));
    assert!(matches!(act("session", "view", &c), SlashAction::SessionInfo));
    assert!(matches!(act("session", "prev", &c), SlashAction::SwitchTab(2)));
    assert!(matches!(act("session", "next", &c), SlashAction::SwitchTab(1)));
    c.current_tab = 2;
    assert!(matches!(act("session", "next", &c), SlashAction::SwitchTab(0)));
    assert!(matches!(act("session", "sideways", &c), SlashAction::SessionUsage));
    c.tab_count = 1;
    c.current_tab = 0;
    assert!(matches!(act("session", "next", &c), SlashAction::Nothing));
}

#[test]
fn resume_takes_a_count_or_an_id_prefix() {
    let mut c = ctx();
    assert!(matches!(act("resume", "", &c), SlashAction::OpenResumePicker(n) if n == DEFAULT_SESSION_LIST_LIMIT));
    assert_eq!(DEFAULT_SESSION_LIST_LIMIT, 50);
    assert!(matches!(act("resume", "7", &c), SlashAction::OpenResumePicker(7)));
    assert!(matches!(act("resume", "+3", &c), SlashAction::OpenResumePicker(3)));
    assert!(matches!(act("resume", "0", &c), SlashAction::OpenResumePicker(1)));
    assert!(
        matches!(act("resume", "abc", &c), SlashAction::ResumeLocally { id, warn: true } if id == "abc"),
        "an agent without a resume capability replays the local log, with a warning"
    );
    c.load_session = true;
    assert!(matches!(act("resume", "abc", &c), SlashAction::ResumeWithAgent(id) if id == "abc"));
    c.list_session = true;
    assert!(matches!(act("resume", "abc", &c), SlashAction::ListSessions(p) if p == "abc"));
    c.demo = true;
    assert!(matches!(act("resume", "abc", &c), SlashAction::ResumeLocally { id, warn: false } if id == "abc"));
}

#[test]
fn permission_normalizes_common_spellings() {
    let c = ctx();
    assert!(matches!(act("permission", "yolo", &c), SlashAction::SetPermission(p) if p == "danger-full-access"));
    assert!(matches!(act("permission", "custom", &c), SlashAction::SetPermission(p) if p == "custom"));
}

#[test]
fn plan_flips_the_declared_switch_or_prompts_the_agent() {
    let mut c = ctx();
    let set = |action: SlashAction| match action {
        SlashAction::SetPlan { config_id, value: Json::Str(v) } => Some((config_id, v)),
        _ => None,
    };
    assert_eq!(set(slash_action("plan", "", &c, Some(plan_switch()))), Some(("mode".to_owned(), "plan".to_owned())));
    assert_eq!(
        set(slash_action("plan", "off", &c, Some(plan_switch()))),
        Some(("mode".to_owned(), "default".to_owned()))
    );
    c.plan_on = true;
    assert_eq!(
        set(slash_action("plan", "", &c, Some(plan_switch()))),
        Some(("mode".to_owned(), "default".to_owned())),
        "a bare /plan turns plan mode off when it is on"
    );
    assert!(matches!(
        slash_action("plan", "write tests", &c, Some(plan_switch())),
        SlashAction::SendAgentText(t) if t == "/plan write tests"
    ));
    assert!(matches!(slash_action("plan", "", &c, None), SlashAction::SendAgentText(t) if t == "/plan"));
}
