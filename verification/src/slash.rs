//! What a `/command` does: the decision behind each builtin slash command,
//! from the command's name and argument and the session facts it reads, to
//! the action the interactive shell then carries out.
use vstd::prelude::*;
use crate::json::Json;
use crate::keys::{parse_decimal, parse_decimal_chars};
use crate::slash_catalog::{normalize_permission, normalized_permission};
use crate::text::{chars_of, str_eq, concat_str, char_len};

verus! {

/// How many recent sessions `/resume` lists by default.
pub const DEFAULT_SESSION_LIST_LIMIT: usize = 50;

/// What the session tells the slash dispatcher.
pub struct SlashContext {
    pub pet_visible: bool,
    pub vim_active: bool,
    /// The offline demo: no agent behind the session.
    pub demo: bool,
    /// The agent lists sessions (`session/list`).
    pub list_session: bool,
    /// The agent resumes sessions (`session/resume`).
    pub resume_session: bool,
    /// The agent loads sessions (`loadSession`).
    pub load_session: bool,
    /// Plan mode is on.
    pub plan_on: bool,
    /// The viewed tab and how many tabs there are.
    pub current_tab: usize,
    pub tab_count: usize,
    /// The ids of the UI plugins on offer.
    pub ui_plugins: Vec<String>,
}

/// The config switch the agent's `plan` command declares.
pub struct PlanSwitch {
    pub config_id: String,
    pub value: Json,
    pub reset_value: Option<Json>,
}

/// What a slash command does.
pub enum SlashAction {
    Help,
    Keys,
    SetLocale(String),
    /// Clear the scrollback.
    Clear,
    Quit,
    /// Show or hide the pet.
    Pet(bool),
    OpenHarnessPicker,
    SwitchHarness(String),
    Theme(String),
    /// Turn vim editing on or off.
    Vim(bool),
    OpenUiPicker,
    SelectUiPlugin(String),
    UnknownUiPlugin(String),
    FetchStaticPlugins,
    FetchCordisPlugins,
    OpenModelPicker,
    SetModel(String),
    OpenModePicker,
    SetMode(String),
    NewSession(String),
    CloseSession,
    SessionInfo,
    SwitchTab(usize),
    /// `/session` with an argument it does not know.
    SessionUsage,
    Status,
    Auth(String),
    /// List the most recent sessions, at most this many.
    OpenResumePicker(usize),
    /// Ask the agent for its sessions whose id starts with this prefix.
    ListSessions(String),
    /// Resume this session through the agent.
    ResumeWithAgent(String),
    /// Replay this session from the local log; `warn` says the agent
    /// offered no way to resume it.
    ResumeLocally { id: String, warn: bool },
    FetchEfforts,
    SetEffort(String),
    OpenPermissionPicker,
    SetPermission(String),
    /// Flip the agent's plan switch to this value.
    SetPlan { config_id: String, value: Json },
    /// Send this text to the agent as a prompt.
    SendAgentText(String),
    Image(String),
    Clip(String),
    /// Nothing to do (a tab switch with a single tab).
    Nothing,
    Unknown(String),
}

pub enum SlashActionView {
    Help,
    Keys,
    SetLocale(Seq<char>),
    Clear,
    Quit,
    Pet(bool),
    OpenHarnessPicker,
    SwitchHarness(Seq<char>),
    Theme(Seq<char>),
    Vim(bool),
    OpenUiPicker,
    SelectUiPlugin(Seq<char>),
    UnknownUiPlugin(Seq<char>),
    FetchStaticPlugins,
    FetchCordisPlugins,
    OpenModelPicker,
    SetModel(Seq<char>),
    OpenModePicker,
    SetMode(Seq<char>),
    NewSession(Seq<char>),
    CloseSession,
    SessionInfo,
    SwitchTab(usize),
    SessionUsage,
    Status,
    Auth(Seq<char>),
    OpenResumePicker(usize),
    ListSessions(Seq<char>),
    ResumeWithAgent(Seq<char>),
    ResumeLocally { id: Seq<char>, warn: bool },
    FetchEfforts,
    SetEffort(Seq<char>),
    OpenPermissionPicker,
    SetPermission(Seq<char>),
    SetPlan { config_id: Seq<char>, value: Json },
    SendAgentText(Seq<char>),
    Image(Seq<char>),
    Clip(Seq<char>),
    Nothing,
    Unknown(Seq<char>),
}

impl View for SlashAction {
    type V = SlashActionView;

    open spec fn view(&self) -> SlashActionView {
        match self {
            SlashAction::Help => SlashActionView::Help,
            SlashAction::Keys => SlashActionView::Keys,
            SlashAction::SetLocale(s) => SlashActionView::SetLocale(s@),
            SlashAction::Clear => SlashActionView::Clear,
            SlashAction::Quit => SlashActionView::Quit,
            SlashAction::Pet(b) => SlashActionView::Pet(*b),
            SlashAction::OpenHarnessPicker => SlashActionView::OpenHarnessPicker,
            SlashAction::SwitchHarness(s) => SlashActionView::SwitchHarness(s@),
            SlashAction::Theme(s) => SlashActionView::Theme(s@),
            SlashAction::Vim(b) => SlashActionView::Vim(*b),
            SlashAction::OpenUiPicker => SlashActionView::OpenUiPicker,
            SlashAction::SelectUiPlugin(s) => SlashActionView::SelectUiPlugin(s@),
            SlashAction::UnknownUiPlugin(s) => SlashActionView::UnknownUiPlugin(s@),
            SlashAction::FetchStaticPlugins => SlashActionView::FetchStaticPlugins,
            SlashAction::FetchCordisPlugins => SlashActionView::FetchCordisPlugins,
            SlashAction::OpenModelPicker => SlashActionView::OpenModelPicker,
            SlashAction::SetModel(s) => SlashActionView::SetModel(s@),
            SlashAction::OpenModePicker => SlashActionView::OpenModePicker,
            SlashAction::SetMode(s) => SlashActionView::SetMode(s@),
            SlashAction::NewSession(s) => SlashActionView::NewSession(s@),
            SlashAction::CloseSession => SlashActionView::CloseSession,
            SlashAction::SessionInfo => SlashActionView::SessionInfo,
            SlashAction::SwitchTab(t) => SlashActionView::SwitchTab(*t),
            SlashAction::SessionUsage => SlashActionView::SessionUsage,
            SlashAction::Status => SlashActionView::Status,
            SlashAction::Auth(s) => SlashActionView::Auth(s@),
            SlashAction::OpenResumePicker(n) => SlashActionView::OpenResumePicker(*n),
            SlashAction::ListSessions(s) => SlashActionView::ListSessions(s@),
            SlashAction::ResumeWithAgent(s) => SlashActionView::ResumeWithAgent(s@),
            SlashAction::ResumeLocally { id, warn } => SlashActionView::ResumeLocally { id: id@, warn: *warn },
            SlashAction::FetchEfforts => SlashActionView::FetchEfforts,
            SlashAction::SetEffort(s) => SlashActionView::SetEffort(s@),
            SlashAction::OpenPermissionPicker => SlashActionView::OpenPermissionPicker,
            SlashAction::SetPermission(s) => SlashActionView::SetPermission(s@),
            SlashAction::SetPlan { config_id, value } => SlashActionView::SetPlan {
                config_id: config_id@,
                value: *value,
            },
            SlashAction::SendAgentText(s) => SlashActionView::SendAgentText(s@),
            SlashAction::Image(s) => SlashActionView::Image(s@),
            SlashAction::Clip(s) => SlashActionView::Clip(s@),
            SlashAction::Nothing => SlashActionView::Nothing,
            SlashAction::Unknown(s) => SlashActionView::Unknown(s@),
        }
    }
}

/// `/liang`: `on`/`show` shows the pet, `off`/`hide` hides it, anything
/// else toggles it.
pub open spec fn pet_after(arg: Seq<char>, visible: bool) -> bool {
    if arg == "on"@ || arg == "show"@ {
        true
    } else if arg == "off"@ || arg == "hide"@ {
        false
    } else {
        !visible
    }
}

/// `/vim`: `on`/`1` enables modal editing, `off`/`0` disables it, anything
/// else toggles it.
pub open spec fn vim_after(arg: Seq<char>, active: bool) -> bool {
    if arg == "on"@ || arg == "1"@ {
        true
    } else if arg == "off"@ || arg == "0"@ {
        false
    } else {
        !active
    }
}

/// `/session`: show, or step to the previous or next tab (wrapping), or
/// explain its usage.
pub open spec fn session_action(arg: Seq<char>, current: usize, count: usize) -> SlashActionView {
    if arg == "view"@ || arg.len() == 0 {
        SlashActionView::SessionInfo
    } else if arg == "prev"@ {
        if count > 1 {
            SlashActionView::SwitchTab(if current == 0 { (count - 1) as usize } else { (current - 1) as usize })
        } else {
            SlashActionView::Nothing
        }
    } else if arg == "next"@ {
        if count > 1 {
            SlashActionView::SwitchTab(((current + 1) % (count as int)) as usize)
        } else {
            SlashActionView::Nothing
        }
    } else {
        SlashActionView::SessionUsage
    }
}

/// `/resume`: no argument lists the default number of recent sessions, a
/// number lists that many (at least one); anything else is an id prefix the
/// agent resolves when it lists sessions, resumes when it resumes or loads
/// them, and the local log replays otherwise.
pub open spec fn resume_action(arg: Seq<char>, ctx: SlashContext) -> SlashActionView {
    if arg.len() == 0 {
        SlashActionView::OpenResumePicker(DEFAULT_SESSION_LIST_LIMIT)
    } else if parse_decimal(arg, usize::MAX as nat) is Some {
        let n = parse_decimal(arg, usize::MAX as nat)->0;
        SlashActionView::OpenResumePicker(if n == 0 { 1usize } else { n as usize })
    } else if !ctx.demo && ctx.list_session {
        SlashActionView::ListSessions(arg)
    } else if !ctx.demo && (ctx.resume_session || ctx.load_session) {
        SlashActionView::ResumeWithAgent(arg)
    } else {
        SlashActionView::ResumeLocally { id: arg, warn: !ctx.demo }
    }
}

/// `/plan`: the agent's plan switch when it declares one (no argument turns
/// plan mode off when it is on, on otherwise; `on`/`off` say which),
/// else the command goes to the agent as a prompt.
pub open spec fn plan_action(arg: Seq<char>, plan_on: bool, switch: Option<PlanSwitch>) -> SlashActionView {
    let value: Option<Json> = match switch {
        Some(sw) => if arg.len() == 0 && plan_on {
            sw.reset_value
        } else if arg.len() == 0 || arg == "on"@ {
            Some(sw.value)
        } else if arg == "off"@ {
            sw.reset_value
        } else {
            None
        },
        None => None,
    };
    match value {
        Some(v) => SlashActionView::SetPlan { config_id: switch->0.config_id@, value: v },
        None => SlashActionView::SendAgentText(if arg.len() == 0 { "/plan"@ } else { "/plan "@ + arg }),
    }
}

/// Whether `id` is one of `ids`.
pub open spec fn listed(ids: Seq<String>, id: Seq<char>) -> bool {
    exists|i: int| 0 <= i < ids.len() && #[trigger] ids[i]@ == id
}

/// What `/name arg` does.
pub open spec fn slash_action_of(name: Seq<char>, arg: Seq<char>, ctx: SlashContext, plan: Option<PlanSwitch>) -> SlashActionView {
    if name == "help"@ {
        SlashActionView::Help
    } else if name == "keys"@ {
        SlashActionView::Keys
    } else if name == "lang"@ {
        SlashActionView::SetLocale(arg)
    } else if name == "clear"@ {
        SlashActionView::Clear
    } else if name == "quit"@ {
        SlashActionView::Quit
    } else if name == "liang"@ {
        SlashActionView::Pet(pet_after(arg, ctx.pet_visible))
    } else if name == "harness"@ {
        if arg.len() == 0 { SlashActionView::OpenHarnessPicker } else { SlashActionView::SwitchHarness(arg) }
    } else if name == "theme"@ {
        SlashActionView::Theme(arg)
    } else if name == "vim"@ {
        SlashActionView::Vim(vim_after(arg, ctx.vim_active))
    } else if name == "ui"@ {
        if arg.len() == 0 {
            SlashActionView::OpenUiPicker
        } else if listed(ctx.ui_plugins@, arg) {
            SlashActionView::SelectUiPlugin(arg)
        } else {
            SlashActionView::UnknownUiPlugin(arg)
        }
    } else if name == "plugins"@ {
        SlashActionView::FetchStaticPlugins
    } else if name == "cordis-plugins"@ {
        SlashActionView::FetchCordisPlugins
    } else if name == "model"@ {
        if arg.len() == 0 { SlashActionView::OpenModelPicker } else { SlashActionView::SetModel(arg) }
    } else if name == "agent"@ {
        if arg.len() == 0 { SlashActionView::OpenModePicker } else { SlashActionView::SetMode(arg) }
    } else if name == "new"@ {
        SlashActionView::NewSession(arg)
    } else if name == "close"@ {
        SlashActionView::CloseSession
    } else if name == "session"@ {
        session_action(arg, ctx.current_tab, ctx.tab_count)
    } else if name == "status"@ {
        SlashActionView::Status
    } else if name == "auth"@ {
        SlashActionView::Auth(arg)
    } else if name == "resume"@ {
        resume_action(arg, ctx)
    } else if name == "effort"@ {
        if arg.len() == 0 { SlashActionView::FetchEfforts } else { SlashActionView::SetEffort(arg) }
    } else if name == "permission"@ {
        if arg.len() == 0 {
            SlashActionView::OpenPermissionPicker
        } else {
            SlashActionView::SetPermission(
                match normalized_permission(arg) {
                    Some(id) => id,
                    None => arg,
                },
            )
        }
    } else if name == "plan"@ {
        plan_action(arg, ctx.plan_on, plan)
    } else if name == "image"@ {
        SlashActionView::Image(arg)
    } else if name == "clip"@ {
        SlashActionView::Clip(arg)
    } else {
        SlashActionView::Unknown(name)
    }
}

fn is_listed(ids: &Vec<String>, id: &str) -> (r: bool)
    ensures
        r == listed(ids@, id@),
{
    let mut i: usize = 0;
    while i < ids.len()
        invariant
            i <= ids.len(),
            forall|j: int| 0 <= j < i ==> #[trigger] ids@[j]@ != id@,
        decreases ids.len() - i,
    {
        if str_eq(ids[i].as_str(), id) {
            assert(ids@[i as int]@ == id@);
            return true;
        }
        i = i + 1;
    }
    false
}

fn plan_command(arg: &str, plan_on: bool, switch: Option<PlanSwitch>) -> (r: SlashAction)
    ensures
        r@ == plan_action(arg@, plan_on, switch),
{
    let empty = char_len(arg) == 0;
    match switch {
        Some(sw) => {
            let value: Option<Json> = if empty && plan_on {
                sw.reset_value
            } else if empty || str_eq(arg, "on") {
                Some(sw.value)
            } else if str_eq(arg, "off") {
                sw.reset_value
            } else {
                None
            };
            match value {
                Some(v) => {
                    return SlashAction::SetPlan { config_id: sw.config_id, value: v };
                },
                None => {},
            }
        },
        None => {},
    }
    if empty {
        SlashAction::SendAgentText("/plan".to_owned())
    } else {
        SlashAction::SendAgentText(concat_str("/plan ", arg))
    }
}

/// What `/name arg` does, given the session facts it reads and the agent's
/// plan switch (the config action of its first command named `plan`).
pub fn slash_action(name: &str, arg: &str, ctx: &SlashContext, plan: Option<PlanSwitch>) -> (r: SlashAction)
    ensures
        r@ == slash_action_of(name@, arg@, *ctx, plan),
{
    let empty = char_len(arg) == 0;
    let a = arg.to_owned();
    if str_eq(name, "help") {
        SlashAction::Help
    } else if str_eq(name, "keys") {
        SlashAction::Keys
    } else if str_eq(name, "lang") {
        SlashAction::SetLocale(a)
    } else if str_eq(name, "clear") {
        SlashAction::Clear
    } else if str_eq(name, "quit") {
        SlashAction::Quit
    } else if str_eq(name, "liang") {
        let visible = if str_eq(arg, "on") || str_eq(arg, "show") {
            true
        } else if str_eq(arg, "off") || str_eq(arg, "hide") {
            false
        } else {
            !ctx.pet_visible
        };
        SlashAction::Pet(visible)
    } else if str_eq(name, "harness") {
        if empty { SlashAction::OpenHarnessPicker } else { SlashAction::SwitchHarness(a) }
    } else if str_eq(name, "theme") {
        SlashAction::Theme(a)
    } else if str_eq(name, "vim") {
        let on = if str_eq(arg, "on") || str_eq(arg, "1") {
            true
        } else if str_eq(arg, "off") || str_eq(arg, "0") {
            false
        } else {
            !ctx.vim_active
        };
        SlashAction::Vim(on)
    } else if str_eq(name, "ui") {
        if empty {
            SlashAction::OpenUiPicker
        } else if is_listed(&ctx.ui_plugins, arg) {
            SlashAction::SelectUiPlugin(a)
        } else {
            SlashAction::UnknownUiPlugin(a)
        }
    } else if str_eq(name, "plugins") {
        SlashAction::FetchStaticPlugins
    } else if str_eq(name, "cordis-plugins") {
        SlashAction::FetchCordisPlugins
    } else if str_eq(name, "model") {
        if empty { SlashAction::OpenModelPicker } else { SlashAction::SetModel(a) }
    } else if str_eq(name, "agent") {
        if empty { SlashAction::OpenModePicker } else { SlashAction::SetMode(a) }
    } else if str_eq(name, "new") {
        SlashAction::NewSession(a)
    } else if str_eq(name, "close") {
        SlashAction::CloseSession
    } else if str_eq(name, "session") {
        if str_eq(arg, "view") || empty {
            SlashAction::SessionInfo
        } else if str_eq(arg, "prev") {
            if ctx.tab_count > 1 {
                SlashAction::SwitchTab(if ctx.current_tab == 0 { ctx.tab_count - 1 } else { ctx.current_tab - 1 })
            } else {
                SlashAction::Nothing
            }
        } else if str_eq(arg, "next") {
            if ctx.tab_count > 1 {
                let next = if ctx.current_tab < ctx.tab_count - 1 {
                    (ctx.current_tab + 1) % ctx.tab_count
                } else {
                    ((ctx.current_tab % ctx.tab_count) + 1) % ctx.tab_count
                };
                proof {
                    if ctx.current_tab >= ctx.tab_count - 1 {
                        assert(((ctx.current_tab % ctx.tab_count) + 1) % (ctx.tab_count as int)
                            == (ctx.current_tab + 1) % (ctx.tab_count as int)) by (nonlinear_arith)
                            requires
                                ctx.tab_count > 1,
                        ;
                    }
                }
                SlashAction::SwitchTab(next)
            } else {
                SlashAction::Nothing
            }
        } else {
            SlashAction::SessionUsage
        }
    } else if str_eq(name, "status") {
        SlashAction::Status
    } else if str_eq(name, "auth") {
        SlashAction::Auth(a)
    } else if str_eq(name, "resume") {
        if empty {
            SlashAction::OpenResumePicker(DEFAULT_SESSION_LIST_LIMIT)
        } else {
            let digits = chars_of(arg);
            match parse_decimal_chars(&digits, usize::MAX as u64) {
                Some(n) => SlashAction::OpenResumePicker(if n == 0 { 1 } else { n as usize }),
                None => if !ctx.demo && ctx.list_session {
                    SlashAction::ListSessions(a)
                } else if !ctx.demo && (ctx.resume_session || ctx.load_session) {
                    SlashAction::ResumeWithAgent(a)
                } else {
                    SlashAction::ResumeLocally { id: a, warn: !ctx.demo }
                },
            }
        }
    } else if str_eq(name, "effort") {
        if empty { SlashAction::FetchEfforts } else { SlashAction::SetEffort(a) }
    } else if str_eq(name, "permission") {
        if empty {
            SlashAction::OpenPermissionPicker
        } else {
            match normalize_permission(arg) {
                Some(id) => SlashAction::SetPermission(id.to_owned()),
                None => SlashAction::SetPermission(a),
            }
        }
    } else if str_eq(name, "plan") {
        plan_command(arg, ctx.plan_on, plan)
    } else if str_eq(name, "image") {
        SlashAction::Image(a)
    } else if str_eq(name, "clip") {
        SlashAction::Clip(a)
    } else {
        SlashAction::Unknown(name.to_owned())
    }
}

/// The tip shown when the pet is summoned or sent away.
pub fn pet_tip(visible: bool) -> (r: &'static str)
    ensures
        visible ==> r@ == "🤫 小难梁已召唤 — 安静，他在想 AGI · /liang 收回"@,
        !visible ==> r@ == "小难梁去隆基市场买卡了 — /liang 再次召唤"@,
{
    if visible {
        "🤫 小难梁已召唤 — 安静，他在想 AGI · /liang 收回"
    } else {
        "小难梁去隆基市场买卡了 — /liang 再次召唤"
    }
}

} // verus!
