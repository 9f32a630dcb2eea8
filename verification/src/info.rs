//! The text of the built-in info dialogs: `/status` (the compact run,
//! connection, sign-in, session and mode facts) and the credentials line of
//! `/session`.
use vstd::prelude::*;
use crate::modes::{Modes, RunState, current_mode, current_mode_of, agent_label, agent_label_of, current_permission, current_permission_of};
use crate::slash_catalog::{CatalogPreset, permission_label, permission_label_of};
use crate::text::{concat_str, str_eq};

verus! {

/// Where the agent sign-in stands.
#[derive(Clone, Copy, Debug, PartialEq, Eq, Structural)]
pub enum AuthState {
    /// Nothing reported yet.
    Unknown,
    Configured,
    SigningIn,
    Failed,
    NeedsAuth,
}

/// What the sign-in reports.
pub struct AuthFacts {
    pub state: AuthState,
    pub method_name: Option<String>,
    pub method_id: Option<String>,
    pub message: Option<String>,
}

/// What `/status` shows.
pub struct StatusFacts {
    pub zh: bool,
    pub state: RunState,
    pub demo: bool,
    pub connection_failed: bool,
    pub attached: bool,
    pub auth: AuthFacts,
    pub protocol_tag: Option<String>,
    pub session_bound: bool,
    pub session_id: String,
    pub server: Option<String>,
    pub model: String,
    pub modes: Modes,
    pub presets: Vec<CatalogPreset>,
}

pub open spec fn sv(s: Option<String>) -> Option<Seq<char>> {
    match s {
        Some(t) => Some(t@),
        None => None,
    }
}

pub open spec fn state_word(state: RunState, zh: bool) -> Seq<char> {
    match state {
        RunState::Idle => if zh { "空闲"@ } else { "idle"@ },
        RunState::Starting => if zh { "启动中"@ } else { "starting"@ },
        RunState::Running => if zh { "工作中"@ } else { "running"@ },
    }
}

/// The permission shown: the reported preset, else the sandbox mode, else
/// the preset in effect.
pub open spec fn shown_permission(modes: Modes) -> Seq<char> {
    match modes.permission {
        Some(p) => p@,
        None => match modes.sandbox {
            Some(s) => s@,
            None => current_permission_of(modes),
        },
    }
}

pub open spec fn permission_word(perm: Seq<char>, zh: bool) -> Seq<char> {
    if zh && perm == "read-only"@ {
        "只读"@
    } else if zh && perm == "workspace-write"@ {
        "工作区可写"@
    } else if zh && perm == "danger-full-access"@ {
        "完全访问"@
    } else {
        permission_label_of(perm)
    }
}

pub open spec fn acp_word(demo: bool, failed: bool, attached: bool) -> Seq<char> {
    if demo {
        "demo"@
    } else if failed {
        "failed"@
    } else if attached {
        "attached"@
    } else {
        "not attached"@
    }
}

/// The sign-in method's name, else its id.
pub open spec fn method_of(a: AuthFacts) -> Option<Seq<char>> {
    match a.method_name {
        Some(n) => Some(n@),
        None => sv(a.method_id),
    }
}

pub open spec fn with_method(head: Seq<char>, method: Option<Seq<char>>) -> Seq<char> {
    match method {
        Some(m) => head + " · "@ + m,
        None => head,
    }
}

pub open spec fn failure_text(a: AuthFacts) -> Seq<char> {
    match a.message {
        Some(m) => m@,
        None => "ACP authenticate failed"@,
    }
}

/// The sign-in line of `/status`, when there is one.
pub open spec fn auth_line(a: AuthFacts) -> Option<Seq<char>> {
    match a.state {
        AuthState::SigningIn => Some("signing in — waiting for Agent response"@),
        AuthState::Failed => Some("sign-in failed · "@ + failure_text(a)),
        AuthState::Configured => Some(with_method("configured"@, method_of(a))),
        AuthState::NeedsAuth => Some(with_method("needs sign-in"@, method_of(a))),
        AuthState::Unknown => None,
    }
}

pub open spec fn opt_line(prefix: Seq<char>, v: Option<Seq<char>>, suffix: Seq<char>) -> Seq<char> {
    match v {
        Some(s) => prefix + s + suffix,
        None => Seq::empty(),
    }
}

/// The `/status` text: state and connection, session, then model and modes.
pub open spec fn status_text_of(f: StatusFacts) -> Seq<char> {
    status_head(f) + status_session(f) + status_tail(f)
}

pub open spec fn status_head(f: StatusFacts) -> Seq<char> {
    "- state · "@ + state_word(f.state, f.zh) + "\n- acp · "@ + acp_word(f.demo, f.connection_failed, f.attached)
        + opt_line("\n- protocol · "@, sv(f.protocol_tag), Seq::empty()) + "\n"@ + opt_line(
        "- auth · "@,
        auth_line(f.auth),
        "\n"@,
    )
}

pub open spec fn status_session(f: StatusFacts) -> Seq<char> {
    (if f.session_bound { "- session · "@ + f.session_id@ + "\n"@ } else { "- session · unbound\n"@ }) + opt_line(
        "- server · "@,
        sv(f.server),
        "\n"@,
    )
}

pub open spec fn status_tail(f: StatusFacts) -> Seq<char> {
    "- model · "@ + f.model@ + opt_line("\n- effort · "@, sv(f.modes.effort), Seq::empty()) + "\n- agent · "@
        + agent_label_of(current_mode_of(f.modes, f.demo, f.presets@), f.demo, f.presets@) + (if f.modes.agent_preset is None {
        " (default)"@
    } else {
        Seq::empty()
    }) + "\n- permission · "@ + permission_word(shown_permission(f.modes), f.zh) + "\n- plan · "@ + (if f.modes.plan {
        "on"@
    } else {
        "off"@
    })
}

fn cat(a: String, b: &str) -> (r: String)
    ensures
        r@ == a@ + b@,
{
    concat_str(a.as_str(), b)
}

fn cat_opt(out: String, prefix: &str, v: &Option<String>, suffix: &str) -> (r: String)
    ensures
        r@ == out@ + opt_line(prefix@, sv(*v), suffix@),
{
    match v {
        Some(s) => {
            let a = cat(out, prefix);
            let b = cat(a, s.as_str());
            let c = cat(b, suffix);
            assert(c@ =~= out@ + (prefix@ + s@ + suffix@));
            c
        },
        None => {
            assert(out@ + Seq::<char>::empty() =~= out@);
            out
        },
    }
}

fn method_text(a: &AuthFacts) -> (r: Option<String>)
    ensures
        sv(r) == method_of(*a),
{
    match &a.method_name {
        Some(n) => Some(n.clone()),
        None => match &a.method_id {
            Some(i) => Some(i.clone()),
            None => None,
        },
    }
}

fn auth_text(a: &AuthFacts) -> (r: Option<String>)
    ensures
        sv(r) == auth_line(*a),
{
    match a.state {
        AuthState::SigningIn => Some("signing in — waiting for Agent response".to_owned()),
        AuthState::Failed => {
            let m = match &a.message {
                Some(m) => m.clone(),
                None => "ACP authenticate failed".to_owned(),
            };
            Some(concat_str("sign-in failed · ", m.as_str()))
        },
        AuthState::Configured | AuthState::NeedsAuth => {
            let head = if a.state == AuthState::Configured {
                "configured"
            } else {
                "needs sign-in"
            };
            match method_text(a) {
                Some(m) => {
                    let x = concat_str(head, " · ");
                    let y = concat_str(x.as_str(), m.as_str());
                    Some(y)
                },
                None => Some(head.to_owned()),
            }
        },
        AuthState::Unknown => None,
    }
}

fn permission_text(perm: &str, zh: bool) -> (r: String)
    ensures
        r@ == permission_word(perm@, zh),
{
    if zh && str_eq(perm, "read-only") {
        "只读".to_owned()
    } else if zh && str_eq(perm, "workspace-write") {
        "工作区可写".to_owned()
    } else if zh && str_eq(perm, "danger-full-access") {
        "完全访问".to_owned()
    } else {
        permission_label(perm)
    }
}

fn status_head_text(f: &StatusFacts) -> (r: String)
    ensures
        r@ == status_head(*f),
{
    let state = match f.state {
        RunState::Idle => if f.zh { "空闲" } else { "idle" },
        RunState::Starting => if f.zh { "启动中" } else { "starting" },
        RunState::Running => if f.zh { "工作中" } else { "running" },
    };
    let acp = if f.demo {
        "demo"
    } else if f.connection_failed {
        "failed"
    } else if f.attached {
        "attached"
    } else {
        "not attached"
    };
    let auth = auth_text(&f.auth);
    proof {
        reveal_strlit("");
    }
    let t = cat("- state · ".to_owned(), state);
    let t = cat(t, "\n- acp · ");
    let t = cat(t, acp);
    let t = cat_opt(t, "\n- protocol · ", &f.protocol_tag, "");
    let t = cat(t, "\n");
    let t = cat_opt(t, "- auth · ", &auth, "\n");
    assert(t@ =~= status_head(*f));
    t
}

fn status_session_text(f: &StatusFacts) -> (r: String)
    ensures
        r@ == status_session(*f),
{
    let t = if f.session_bound {
        let a = cat("- session · ".to_owned(), f.session_id.as_str());
        cat(a, "\n")
    } else {
        "- session · unbound\n".to_owned()
    };
    let t = cat_opt(t, "- server · ", &f.server, "\n");
    assert(t@ =~= status_session(*f));
    t
}

fn status_tail_text(f: &StatusFacts) -> (r: String)
    ensures
        r@ == status_tail(*f),
{
    let perm: String = match &f.modes.permission {
        Some(p) => p.clone(),
        None => match &f.modes.sandbox {
            Some(s) => s.clone(),
            None => current_permission(&f.modes).to_owned(),
        },
    };
    let mode = current_mode(&f.modes, f.demo, &f.presets);
    let label = agent_label(mode.as_str(), f.demo, &f.presets);
    proof {
        reveal_strlit("");
    }
    let t = cat("- model · ".to_owned(), f.model.as_str());
    let t = cat_opt(t, "\n- effort · ", &f.modes.effort, "");
    let t = cat(t, "\n- agent · ");
    let t = cat(t, label.as_str());
    let t = cat(t, if f.modes.agent_preset.is_none() { " (default)" } else { "" });
    let t = cat(t, "\n- permission · ");
    let pw = permission_text(perm.as_str(), f.zh);
    let t = cat(t, pw.as_str());
    let t = cat(t, "\n- plan · ");
    let t = cat(t, if f.modes.plan { "on" } else { "off" });
    assert(t@ =~= status_tail(*f));
    t
}

/// The `/status` dialog's text.
pub fn status_text(f: &StatusFacts) -> (r: String)
    ensures
        r@ == status_text_of(*f),
{
    let a = status_head_text(f);
    let b = status_session_text(f);
    let c = status_tail_text(f);
    let ab = cat(a, b.as_str());
    cat(ab, c.as_str())
}

/// What the `/session` dialog says of credentials.
pub struct CredentialFacts {
    pub demo: bool,
    pub auth: AuthFacts,
    /// The configured runtime has an API key, and where it came from.
    pub has_credentials: bool,
    pub credential_source: Option<String>,
}

/// The credentials line of `/session`.
pub open spec fn credentials_of(f: CredentialFacts) -> Seq<char> {
    if f.demo {
        "demo mode (no API calls)"@
    } else {
        match f.auth.state {
            AuthState::Configured => match method_of(f.auth) {
                Some(m) => "ACP authenticate · "@ + m,
                None => "ready · credential source not reported"@,
            },
            AuthState::SigningIn => "signing in — waiting for Agent response"@,
            AuthState::Failed => "sign-in failed · "@ + failure_text(f.auth) + " · /auth"@,
            AuthState::NeedsAuth => match method_of(f.auth) {
                Some(m) => "sign-in needed · "@ + m + " · /auth"@,
                None => "sign-in needed · /auth"@,
            },
            AuthState::Unknown => if f.has_credentials {
                match f.credential_source {
                    Some(s) => "api key present · "@ + s@,
                    None => "api key present"@,
                }
            } else {
                "DEEPSEEK_API_KEY not set"@
            },
        }
    }
}

/// The credentials line of `/session`.
pub fn credentials_line(f: &CredentialFacts) -> (r: String)
    ensures
        r@ == credentials_of(*f),
{
    if f.demo {
        return "demo mode (no API calls)".to_owned();
    }
    match f.auth.state {
        AuthState::Configured => match method_text(&f.auth) {
            Some(m) => concat_str("ACP authenticate · ", m.as_str()),
            None => "ready · credential source not reported".to_owned(),
        },
        AuthState::SigningIn => "signing in — waiting for Agent response".to_owned(),
        AuthState::Failed => {
            let m = match &f.auth.message {
                Some(m) => m.clone(),
                None => "ACP authenticate failed".to_owned(),
            };
            let a = concat_str("sign-in failed · ", m.as_str());
            concat_str(a.as_str(), " · /auth")
        },
        AuthState::NeedsAuth => match method_text(&f.auth) {
            Some(m) => {
                let a = concat_str("sign-in needed · ", m.as_str());
                concat_str(a.as_str(), " · /auth")
            },
            None => "sign-in needed · /auth".to_owned(),
        },
        AuthState::Unknown => if f.has_credentials {
            match &f.credential_source {
                Some(s) => concat_str("api key present · ", s.as_str()),
                None => "api key present".to_owned(),
            }
        } else {
            "DEEPSEEK_API_KEY not set".to_owned()
        },
    }
}

/// The `/help` dialog body, in English.
pub const HELP_EN: &'static str = "\
- enter · send · with an empty composer, sends the Queue head now
- alt+↑ · choose any queued prompt · ↑/↓ select, enter edits/saves, ctrl+d deletes, esc closes
- ctrl+enter · steer the active turn immediately
- esc · first closes / suggestions; cancels queue edits; otherwise interrupts (draft survives) or clears an idle draft
- ctrl+c · clear a draft; 2× quits with no draft (never interrupts)
- shift+tab · cycle permission (workspace-write ⇄ full access) · /permission opens the preset picker
- ctrl+p · model picker (host catalog) → effort picker
- ctrl+shift+a · cycle agent preset directly
- ↓ · expand Agent transcript navigation from an empty prompt · ←/→ choose, enter opens, esc collapses
- /agent · switch the agent preset advertised over ACP
- /auth · ACP sign-in (picker when several methods; else Terminal Auth or authenticate _meta)
- /effort · reasoning effort · /permission preset · /plan host plan mode
- /resume · pick up a durable session — transcript replays, log continues
- /image · stage a local image — /image ./pic.png [caption]
- /clip · stage the clipboard image — /clip [caption] · ctrl+v also works
- !cmd · run in the session's local shell (not the agent); starts in the workspace, keeps cd/env across commands
- /<skill> · agent commands join the / menu — enter ships it and the host injects the skill body
- ctrl+o · expand thoughts + tool output · ctrl+l · clear
- editing · readline chords + ⌘/⌥ arrows (ctrl+arrows elsewhere) · full map in /keys
- click tool · expand/collapse that tool · wheel scrolls the conversation
- pgup/pgdn · scroll · mouse wheel works · end follows the tail
- mouse drag · select text — copied on release · 2×click copies a word

Per turn: streamed reasoning, answer, tool calls with results, injected
context, subagent lifecycles, token usage (incl. cache hits), end reason.";

/// The `/help` dialog body, in Chinese.
pub const HELP_ZH: &'static str = "\
- enter · 发送；空 composer 且 Queue 非空时立即发送队首
- alt+↑ · 选择任意排队消息；↑/↓ 选择，enter 编辑/保存，ctrl+d 删除，esc 退出
- ctrl+enter · 立即 steer 当前轮次
- esc · 优先退出 / 推荐；队列编辑时取消；否则中断（保留草稿），空闲时清草稿
- ctrl+c · 有草稿先清除；无草稿时连按 2 次退出（不中断）
- shift+tab · 轮换权限预设 · /permission 打开选择器
- ctrl+p · 打开模型选择器，然后选择推理强度
- ctrl+shift+a · 直接轮换 Agent 预设
- ↓ · 空输入时展开 Agent 会话导航；←/→ 选择，enter 打开，esc 折叠
- /agent · 切换 ACP 广告的 Agent 预设
- /lang · 切换界面语言：/lang zh 或 /lang en
- /auth · ACP 登录；多种方式时打开选择器
- /effort · 推理强度 · /permission 权限预设 · /plan 计划模式
- /resume · 恢复持久会话并继续写入原日志
- /image · 暂存本地图片：/image ./pic.png [说明]
- /clip · 暂存剪贴板图片；ctrl+v 同样可用
- !cmd · 在会话级本地 shell 中运行命令，不经过 Agent；初始目录为 workspace，cd/环境变量跨命令保留
- /<skill> · Agent 命令会进入 / 菜单，选择后由 Host 注入技能正文
- ctrl+o · 展开思考和工具输出 · ctrl+l · 清屏
- 输入框编辑：readline 组合键 + ⌘/⌥ 方向键 + 键盘选区 · 完整映射见 /keys
- 点击工具 · 展开/折叠 · 滚轮滚动对话
- pgup/pgdn · 翻页 · end 回到最新消息
- 鼠标拖动 · 选择并复制文本 · 双击复制单词

每轮会显示：流式思考与回答、工具调用与结果、注入上下文、Subagent 生命周期、
token 用量（含缓存命中）以及轮次结束原因。";

/// The `/help` dialog body for the interface language.
pub fn help_text(zh: bool) -> (r: &'static str)
    ensures
        r@ == (if zh { HELP_ZH@ } else { HELP_EN@ }),
{
    if zh { HELP_ZH } else { HELP_EN }
}

} // verus!
