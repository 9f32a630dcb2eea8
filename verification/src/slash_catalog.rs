//! The builtin `/` command catalog, stock presets, and the permission and
//! attachment vocabulary the composer understands.
use vstd::prelude::*;
use crate::picker::PickerItem;
use crate::text::{
    ascii_lower_seq, ascii_lowercase, ascii_upper, char_ascii_upper, chars_of, concat_str,
    is_ascii_digit, is_ascii_lower, is_ascii_upper, is_white, str_eq, string_from, trim, trim_end, trim_start, trim_string,
};

verus! {

/// One builtin slash command: its name, usage line and one-line description.
pub struct SlashCommand {
    pub name: &'static str,
    pub usage: &'static str,
    pub desc: &'static str,
}

/// The builtin slash commands `(name, usage, description)`, in menu order.
pub open spec fn builtin_catalog() -> Seq<(Seq<char>, Seq<char>, Seq<char>)> {
    seq![
        ("agent"@, "/agent [id]"@, "switch agent preset · ctrl+shift+a"@),
        ("auth"@, "/auth [method|api-key]"@, "ACP sign-in (Backchat authenticate)"@),
        ("clear"@, "/clear"@, "clear the scrollback"@),
        ("clip"@, "/clip [text]"@, "attach the clipboard image (macOS/Linux)"@),
        ("close"@, "/close"@, "close the current session tab (last tab cannot close)"@),
        ("cordis-plugins"@, "/cordis-plugins"@, "review or manage dynamic Cordis plugins"@),
        ("effort"@, "/effort [off|high|max]"@, "reasoning effort for this session"@),
        ("harness"@, "/harness [id]"@, "switch the agent harness — respawns the connection"@),
        ("help"@, "/help"@, "show help and tips"@),
        ("image"@, "/image <path> [text]"@, "send a local image (png/jpeg/webp/gif)"@),
        ("keys"@, "/keys"@, "keyboard shortcuts"@),
        ("lang"@, "/lang [zh|en]"@, "switch interface language"@),
        ("liang"@, "/liang [on|off]"@, "召唤小难梁 — 🤫 idle · ⌨︎ working"@),
        ("model"@, "/model [id]"@, "switch model · live over ACP"@),
        ("new"@, "/new [id]"@, "start a fresh session"@),
        ("permission"@, "/permission [preset]"@, "permission preset picker · shift+tab cycles"@),
        ("plan"@, "/plan [on|off]"@, "toggle host plan mode"@),
        ("plugins"@, "/plugins"@, "show Host plugin status (read-only)"@),
        ("quit"@, "/quit"@, "exit crow-term"@),
        ("resume"@, "/resume [n|id]"@, "list the n most recent sessions (default 50) · /resume <id> resumes it"@),
        ("session"@, "/session [view|prev|next]"@, "show session info · prev/next switch session tab"@),
        ("theme"@, "/theme [id|toggle]"@, "switch Theme Plugin or toggle dark/light"@),
        ("ui"@, "/ui [id]"@, "switch UI Plugin"@),
        ("vim"@, "/vim [on|off]"@, "toggle vim modal editing (default off)"@),
    ]
}

/// The builtin slash commands, in menu order.
pub fn slash_commands() -> (r: Vec<SlashCommand>)
    ensures
        r@.map_values(|c: SlashCommand| (c.name@, c.usage@, c.desc@)) == builtin_catalog(),
{
    let r = vec![
        SlashCommand { name: "agent", usage: "/agent [id]", desc: "switch agent preset · ctrl+shift+a" },
        SlashCommand { name: "auth", usage: "/auth [method|api-key]", desc: "ACP sign-in (Backchat authenticate)" },
        SlashCommand { name: "clear", usage: "/clear", desc: "clear the scrollback" },
        SlashCommand { name: "clip", usage: "/clip [text]", desc: "attach the clipboard image (macOS/Linux)" },
        SlashCommand { name: "close", usage: "/close", desc: "close the current session tab (last tab cannot close)" },
        SlashCommand { name: "cordis-plugins", usage: "/cordis-plugins", desc: "review or manage dynamic Cordis plugins" },
        SlashCommand { name: "effort", usage: "/effort [off|high|max]", desc: "reasoning effort for this session" },
        SlashCommand { name: "harness", usage: "/harness [id]", desc: "switch the agent harness — respawns the connection" },
        SlashCommand { name: "help", usage: "/help", desc: "show help and tips" },
        SlashCommand { name: "image", usage: "/image <path> [text]", desc: "send a local image (png/jpeg/webp/gif)" },
        SlashCommand { name: "keys", usage: "/keys", desc: "keyboard shortcuts" },
        SlashCommand { name: "lang", usage: "/lang [zh|en]", desc: "switch interface language" },
        SlashCommand { name: "liang", usage: "/liang [on|off]", desc: "召唤小难梁 — 🤫 idle · ⌨︎ working" },
        SlashCommand { name: "model", usage: "/model [id]", desc: "switch model · live over ACP" },
        SlashCommand { name: "new", usage: "/new [id]", desc: "start a fresh session" },
        SlashCommand { name: "permission", usage: "/permission [preset]", desc: "permission preset picker · shift+tab cycles" },
        SlashCommand { name: "plan", usage: "/plan [on|off]", desc: "toggle host plan mode" },
        SlashCommand { name: "plugins", usage: "/plugins", desc: "show Host plugin status (read-only)" },
        SlashCommand { name: "quit", usage: "/quit", desc: "exit crow-term" },
        SlashCommand { name: "resume", usage: "/resume [n|id]", desc: "list the n most recent sessions (default 50) · /resume <id> resumes it" },
        SlashCommand { name: "session", usage: "/session [view|prev|next]", desc: "show session info · prev/next switch session tab" },
        SlashCommand { name: "theme", usage: "/theme [id|toggle]", desc: "switch Theme Plugin or toggle dark/light" },
        SlashCommand { name: "ui", usage: "/ui [id]", desc: "switch UI Plugin" },
        SlashCommand { name: "vim", usage: "/vim [on|off]", desc: "toggle vim modal editing (default off)" },
    ];
    assert(r@.map_values(|c: SlashCommand| (c.name@, c.usage@, c.desc@)) =~= builtin_catalog());
    r
}

/// Model ids offered when no host catalog has arrived.
pub open spec fn stock_models() -> Seq<Seq<char>> {
    seq!["deepseek-v4-flash"@, "deepseek-v4"@, "deepseek-v3.2"@, "deepseek-chat"@, "deepseek-reasoner"@]
}

/// Model ids offered when no host catalog has arrived.
pub fn model_presets() -> (r: Vec<&'static str>)
    ensures
        r@.map_values(|m: &'static str| m@) == stock_models(),
{
    let r = vec!["deepseek-v4-flash", "deepseek-v4", "deepseek-v3.2", "deepseek-chat", "deepseek-reasoner"];
    assert(r@.map_values(|m: &'static str| m@) =~= stock_models());
    r
}

/// Demo agent presets `(id, name, description)`.
pub open spec fn stock_agent_modes() -> Seq<(Seq<char>, Seq<char>, Seq<char>)> {
    seq![
        ("standard"@, "Standard mode"@, "full coding agent · files, shell, search, skills, subagents"@),
        ("code"@, "Code mode"@, "standard tools driven from one TypeScript program"@),
        ("minimal"@, "Minimal mode"@, "two tools · persistent bash + str_replace_editor"@),
        ("cordis"@, "Creator mode"@, "standard + runtime inspection and preset authoring"@),
    ]
}

/// Demo agent presets `(id, name, description)` used when no agent catalog
/// has arrived.
pub fn agent_modes() -> (r: Vec<(&'static str, &'static str, &'static str)>)
    ensures
        r@.map_values(|t: (&'static str, &'static str, &'static str)| (t.0@, t.1@, t.2@))
            == stock_agent_modes(),
{
    let r = vec![
        ("standard", "Standard mode", "full coding agent · files, shell, search, skills, subagents"),
        ("code", "Code mode", "standard tools driven from one TypeScript program"),
        ("minimal", "Minimal mode", "two tools · persistent bash + str_replace_editor"),
        ("cordis", "Creator mode", "standard + runtime inspection and preset authoring"),
    ];
    assert(r@.map_values(|t: (&'static str, &'static str, &'static str)| (t.0@, t.1@, t.2@))
        =~= stock_agent_modes());
    r
}

/// The stock permission presets `(id, meaning)`, in cycle order.
pub open spec fn stock_permissions() -> Seq<(Seq<char>, Seq<char>)> {
    seq![
        ("read-only"@, "read only — no file writes"@),
        ("workspace-write"@, "write inside the workspace · wider actions ask for approval"@),
        ("danger-full-access"@, "full file access · approval prompts off — trusted dirs only"@),
    ]
}

/// The stock permission presets `(id, meaning)`, in cycle order.
pub fn permission_presets() -> (r: Vec<(&'static str, &'static str)>)
    ensures
        r@.map_values(|t: (&'static str, &'static str)| (t.0@, t.1@)) == stock_permissions(),
{
    let r = vec![
        ("read-only", "read only — no file writes"),
        ("workspace-write", "write inside the workspace · wider actions ask for approval"),
        ("danger-full-access", "full file access · approval prompts off — trusted dirs only"),
    ];
    assert(r@.map_values(|t: (&'static str, &'static str)| (t.0@, t.1@)) =~= stock_permissions());
    r
}

/// The stock preset a spelling names: the input is trimmed and
/// ASCII-lowercased, then matched against each preset's aliases.
pub open spec fn normalized_permission(arg: Seq<char>) -> Option<Seq<char>> {
    let k = ascii_lower_seq(trim(arg));
    if k == "read-only"@ || k == "readonly"@ || k == "read"@ || k == "ro"@ {
        Some("read-only"@)
    } else if k == "workspace-write"@ || k == "workspace"@ || k == "write"@ || k == "ws"@ || k
        == "safe"@ || k == "sandbox"@ {
        Some("workspace-write"@)
    } else if k == "danger-full-access"@ || k == "full-access"@ || k == "full"@ || k == "danger"@
        || k == "yolo"@ {
        Some("danger-full-access"@)
    } else {
        None
    }
}

/// A plain lowercase id (no whitespace at its ends, no uppercase) reads as
/// itself.
proof fn lemma_plain_key(s: Seq<char>)
    requires
        s.len() > 0,
        !is_white(s[0]),
        !is_white(s.last()),
        forall|k: int| 0 <= k < s.len() ==> !is_ascii_upper(#[trigger] s[k]),
    ensures
        ascii_lower_seq(trim(s)) == s,
{
    assert(trim_start(s) == s);
    assert(trim_end(s) == s);
    assert(ascii_lower_seq(s) =~= s) by {
        assert forall|k: int| 0 <= k < s.len() implies #[trigger] ascii_lower_seq(s)[k] == s[k] by {
            assert(!is_ascii_upper(s[k]));
        }
    }
}

/// Every spelling `/permission` accepts lands on a stock preset, and a
/// stock preset id reads as itself.
pub proof fn law_permission_spellings_land_on_presets(arg: Seq<char>)
    ensures
        normalized_permission(arg) matches Some(p) ==> (exists|k: int| 0 <= k < 3 && #[trigger] stock_permissions()[k].0 == p)
            && normalized_permission(p) == Some(p),
{
    reveal_strlit("read-only");
    reveal_strlit("readonly");
    reveal_strlit("read");
    reveal_strlit("ro");
    reveal_strlit("workspace-write");
    reveal_strlit("workspace");
    reveal_strlit("write");
    reveal_strlit("ws");
    reveal_strlit("safe");
    reveal_strlit("sandbox");
    reveal_strlit("danger-full-access");
    lemma_plain_key("read-only"@);
    lemma_plain_key("workspace-write"@);
    lemma_plain_key("danger-full-access"@);
    if normalized_permission(arg) is Some {
        let p = normalized_permission(arg)->0;
        if p == "read-only"@ {
            assert(stock_permissions()[0].0 == p);
        } else if p == "workspace-write"@ {
            assert(stock_permissions()[1].0 == p);
        } else {
            assert(stock_permissions()[2].0 == p);
        }
    }
}

/// Map common spellings onto the stock preset ids (`full` →
/// `danger-full-access`, `ws` → `workspace-write`, `ro` → `read-only`, …).
pub fn normalize_permission(arg: &str) -> (r: Option<&'static str>)
    ensures
        match r {
            Some(id) => normalized_permission(arg@) == Some(id@),
            None => normalized_permission(arg@) is None,
        },
{
    let t = trim_string(arg);
    let key = ascii_lowercase(t.as_str());
    let k = key.as_str();
    if str_eq(k, "read-only") || str_eq(k, "readonly") || str_eq(k, "read") || str_eq(k, "ro") {
        Some("read-only")
    } else if str_eq(k, "workspace-write") || str_eq(k, "workspace") || str_eq(k, "write")
        || str_eq(k, "ws") || str_eq(k, "safe") || str_eq(k, "sandbox") {
        Some("workspace-write")
    } else if str_eq(k, "danger-full-access") || str_eq(k, "full-access") || str_eq(k, "full")
        || str_eq(k, "danger") || str_eq(k, "yolo") {
        Some("danger-full-access")
    } else {
        None
    }
}

/// A kebab-case key: non-empty `-`-separated segments, each made of ASCII
/// lowercase letters and digits.
pub open spec fn is_kebab(id: Seq<char>) -> bool {
    &&& id.len() > 0
    &&& id[0] != '-'
    &&& id.last() != '-'
    &&& forall|i: int|
        0 <= i < id.len() ==> (is_ascii_lower(#[trigger] id[i]) || is_ascii_digit(id[i]) || id[i]
            == '-')
    &&& forall|i: int| 0 <= i < id.len() - 1 ==> !(#[trigger] id[i] == '-' && id[i + 1] == '-')
}

/// Title case of a kebab key: every `-` becomes a space and every segment's
/// first character is upper-cased.
pub open spec fn title_case(id: Seq<char>) -> Seq<char> {
    Seq::new(
        id.len(),
        |i: int|
            if id[i] == '-' {
                ' '
            } else if i == 0 || id[i - 1] == '-' {
                ascii_upper(id[i])
            } else {
                id[i]
            },
    )
}

/// The user-facing label of a permission preset id.
pub open spec fn permission_label_of(id: Seq<char>) -> Seq<char> {
    if id == "danger-full-access"@ {
        "Full access"@
    } else if is_kebab(id) {
        title_case(id)
    } else {
        id
    }
}

fn kebab(v: &Vec<char>) -> (b: bool)
    ensures
        b == is_kebab(v@),
{
    let n = v.len();
    if n == 0 || v[0] == '-' || v[n - 1] == '-' {
        return false;
    }
    let mut i: usize = 0;
    while i < n
        invariant
            n == v.len() > 0,
            i <= n,
            forall|j: int| 0 <= j < i ==> (is_ascii_lower(#[trigger] v@[j]) || is_ascii_digit(v@[j]) || v@[j] == '-'),
            forall|j: int| 0 <= j < i && j < n - 1 ==> !(#[trigger] v@[j] == '-' && v@[j + 1] == '-'),
        decreases n - i,
    {
        let c = v[i];
        if !(('a' <= c && c <= 'z') || ('0' <= c && c <= '9') || c == '-') {
            return false;
        }
        if i + 1 < n && c == '-' && v[i + 1] == '-' {
            return false;
        }
        i = i + 1;
    }
    true
}

/// User-facing permission label: `danger-full-access` → "Full access";
/// kebab-case keys are title-cased; anything else is shown as-is.
pub fn permission_label(id: &str) -> (r: String)
    ensures
        r@ == permission_label_of(id@),
{
    if str_eq(id, "danger-full-access") {
        return "Full access".to_string();
    }
    let v = chars_of(id);
    if !kebab(&v) {
        return id.to_string();
    }
    let mut out: Vec<char> = Vec::new();
    let mut i: usize = 0;
    while i < v.len()
        invariant
            i <= v.len(),
            v@ == id@,
            out@ == title_case(v@).take(i as int),
        decreases v.len() - i,
    {
        let c = v[i];
        let d = if c == '-' {
            ' '
        } else if i == 0 || v[i - 1] == '-' {
            char_ascii_upper(c)
        } else {
            c
        };
        out.push(d);
        assert(title_case(v@).take(i + 1) =~= title_case(v@).take(i as int).push(d));
        i = i + 1;
    }
    assert(title_case(v@).take(v.len() as int) =~= title_case(v@));
    string_from(out.as_slice())
}

/// A session mode the agent advertises (`/agent`, `/permission`).
pub struct CatalogPreset {
    pub id: String,
    pub name: String,
    pub description: String,
    pub broken: bool,
}

/// The picker row suffix marking the current preset: `" · current"` for the
/// one the session reported, `" · default"` for the effective one while
/// nothing was reported.
pub open spec fn preset_mark(id: Seq<char>, reported: Option<Seq<char>>, current: Seq<char>) -> Seq<char> {
    if reported == Some(id) {
        " · current"@
    } else if reported is None && id == current {
        " · default"@
    } else {
        Seq::empty()
    }
}

/// The permission picker rows for the advertised modes.
pub fn permission_picker_items(modes: &Vec<CatalogPreset>, reported: Option<&str>, current: &str) -> (r: Vec<PickerItem>)
    ensures
        r.len() == modes.len(),
        forall|i: int| 0 <= i < r.len() ==> {
            let p = #[trigger] modes@[i];
            let rep = match reported { Some(s) => Some(s@), None => None };
            &&& r@[i].id@ == p.id@
            &&& r@[i].label@ == permission_label_of(p.id@)
            &&& r@[i].meta@ == p.description@ + preset_mark(p.id@, rep, current@)
            &&& r@[i].provider is None
        },
{
    let mut out: Vec<PickerItem> = Vec::new();
    let mut i: usize = 0;
    while i < modes.len()
        invariant
            i <= modes.len(),
            out.len() == i,
            forall|j: int| 0 <= j < i ==> {
                let p = #[trigger] modes@[j];
                let rep = match reported { Some(s) => Some(s@), None => None };
                &&& out@[j].id@ == p.id@
                &&& out@[j].label@ == permission_label_of(p.id@)
                &&& out@[j].meta@ == p.description@ + preset_mark(p.id@, rep, current@)
                &&& out@[j].provider is None
            },
        decreases modes.len() - i,
    {
        let p = &modes[i];
        let is_reported = match reported {
            Some(r) => str_eq(r, p.id.as_str()),
            None => false,
        };
        let mark = if is_reported {
            " · current"
        } else if reported.is_none() && str_eq(p.id.as_str(), current) {
            " · default"
        } else {
            ""
        };
        proof {
            reveal_strlit("");
        }
        let meta = concat_str(p.description.as_str(), mark);
        out.push(PickerItem { id: p.id.clone(), label: permission_label(p.id.as_str()), meta, provider: None });
        i = i + 1;
    }
    out
}

/// The text after the last `.` of a path (all of it when there is none).
pub open spec fn last_dot_suffix(p: Seq<char>) -> Seq<char>
    decreases p.len(),
{
    if p.len() == 0 {
        p
    } else if p.last() == '.' {
        Seq::empty()
    } else {
        last_dot_suffix(p.drop_last()).push(p.last())
    }
}

/// The attachment media type a file extension maps to.
pub open spec fn media_type_of(path: Seq<char>) -> Option<Seq<char>> {
    let ext = ascii_lower_seq(last_dot_suffix(path));
    if ext == "png"@ {
        Some("image/png"@)
    } else if ext == "jpg"@ || ext == "jpeg"@ {
        Some("image/jpeg"@)
    } else if ext == "webp"@ {
        Some("image/webp"@)
    } else if ext == "gif"@ {
        Some("image/gif"@)
    } else {
        None
    }
}

proof fn lemma_last_dot_suffix(p: Seq<char>, i: int)
    requires
        -1 <= i < p.len(),
        i >= 0 ==> p[i] == '.',
        forall|j: int| i < j < p.len() ==> p[j] != '.',
    ensures
        last_dot_suffix(p) == p.skip(i + 1),
    decreases p.len(),
{
    if p.len() == 0 {
        assert(p.skip(i + 1) =~= p);
    } else if i == p.len() - 1 {
        assert(p.skip(i + 1) =~= Seq::<char>::empty());
    } else {
        lemma_last_dot_suffix(p.drop_last(), i);
        assert(p.drop_last().skip(i + 1).push(p.last()) =~= p.skip(i + 1));
    }
}

/// Map a file extension to the attachment media type the host accepts.
pub fn media_type_for(path: &str) -> (r: Option<&'static str>)
    ensures
        match r {
            Some(m) => media_type_of(path@) == Some(m@),
            None => media_type_of(path@) is None,
        },
{
    let v = chars_of(path);
    let start = match crate::text::last_index_of_char(&v, '.') {
        Some(i) => {
            proof {
                lemma_last_dot_suffix(v@, i as int);
            }
            i + 1
        },
        None => {
            proof {
                lemma_last_dot_suffix(v@, -1);
            }
            0
        },
    };
    let ext_raw = crate::text::string_from_range(&v, start, v.len());
    proof {
        assert(v@.subrange(start as int, v.len() as int) =~= v@.skip(start as int));
    }
    let ext = ascii_lowercase(ext_raw.as_str());
    let e = ext.as_str();
    if str_eq(e, "png") {
        Some("image/png")
    } else if str_eq(e, "jpg") || str_eq(e, "jpeg") {
        Some("image/jpeg")
    } else if str_eq(e, "webp") {
        Some("image/webp")
    } else if str_eq(e, "gif") {
        Some("image/gif")
    } else {
        None
    }
}

} // verus!
