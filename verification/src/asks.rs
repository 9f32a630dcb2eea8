//! Agent questions: which tab a permission ask or a form belongs to, how
//! the built-in write-outside-workspace ask reads in the UI language, and
//! what a key does on an open ask.
use vstd::prelude::*;
use crate::agents::{index_in, ids_view};
use crate::keys::{KeyCode, KeyEvent, CONTROL};
use crate::text::{chars_of, str_eq, string_from_range, concat_str, has_prefix};
use crate::ui_route::{SlotAgents, slot_owner};

verus! {

/// Which tab shows an ask.
#[derive(Clone, Copy, Debug, PartialEq, Eq, Structural)]
pub enum AskOwner {
    /// The tab on screen (its session or one of its subagents).
    Live,
    /// The parked tab at this position: the ask waits on it.
    Parked(usize),
    /// No tab knows the session: the ask shows on screen, with a tip.
    Unknown,
}

/// The owner of an ask from `session` (`None`: an ask outside any session).
pub open spec fn ask_owner_of(session: Option<Seq<char>>, live_id: Seq<char>, live_views: Seq<Seq<char>>, parked: Seq<SlotAgents>) -> AskOwner {
    match session {
        None => AskOwner::Live,
        Some(s) => if s == live_id || index_in(live_views, s) is Some {
            AskOwner::Live
        } else {
            match slot_owner(parked, s) {
                Some((j, _)) => AskOwner::Parked(j as usize),
                None => AskOwner::Unknown,
            }
        },
    }
}

/// Which tab shows an ask from `session`.
pub fn ask_owner(session: Option<&str>, live_id: &str, live_views: &Vec<String>, parked: &Vec<SlotAgents>) -> (r: AskOwner)
    ensures
        r == ask_owner_of(match session {
            Some(s) => Some(s@),
            None => None,
        }, live_id@, ids_view(live_views@), parked@),
{
    let s = match session {
        None => {
            return AskOwner::Live;
        },
        Some(s) => s,
    };
    match crate::ui_route::session_dest(live_id, live_views, parked, s) {
        crate::ui_route::UiDest::Live | crate::ui_route::UiDest::LiveView(_) => AskOwner::Live,
        crate::ui_route::UiDest::Slot(j) | crate::ui_route::UiDest::SlotView(j, _) => AskOwner::Parked(j),
        crate::ui_route::UiDest::Drop => AskOwner::Unknown,
    }
}

/// The path of the built-in ask `write <path> · outside workspace`.
pub open spec fn outside_write_path(title: Seq<char>) -> Option<Seq<char>> {
    let head = "write "@;
    let tail = " · outside workspace"@;
    if title.len() >= head.len() + tail.len() && has_prefix(title, head) && title.subrange(
        title.len() - tail.len(),
        title.len() as int,
    ) == tail {
        Some(title.subrange(head.len() as int, title.len() - tail.len()))
    } else {
        None
    }
}

/// An ask's title in the UI language: the built-in outside-workspace write
/// ask is translated, any other title stays as the agent wrote it.
pub open spec fn ask_title_of(title: Seq<char>, zh: bool) -> Seq<char> {
    match outside_write_path(title) {
        Some(p) => if zh { "写入 "@ + p + " · 工作区外"@ } else { "write "@ + p + " · outside workspace"@ },
        None => title,
    }
}

/// An ask's title in the UI language.
pub fn ask_title(title: &str, zh: bool) -> (r: String)
    ensures
        r@ == ask_title_of(title@, zh),
{
    let v = chars_of(title);
    let head = chars_of("write ");
    let tail = chars_of(" · outside workspace");
    proof {
        reveal_strlit("write ");
        reveal_strlit(" · outside workspace");
    }
    if v.len() >= head.len() + tail.len() && crate::text::starts_with(&v, &head) && crate::text::matches_at(
        &v,
        &tail,
        v.len() - tail.len(),
    ) {
        let path = string_from_range(&v, head.len(), v.len() - tail.len());
        let a = concat_str(if zh { "写入 " } else { "write " }, path.as_str());
        concat_str(a.as_str(), if zh { " · 工作区外" } else { " · outside workspace" })
    } else {
        proof {
            if outside_write_path(title@) is Some {
                assert(crate::text::occurs_at(v@, tail@, v.len() - tail.len()));
            }
        }
        title.to_owned()
    }
}

/// A built-in ask option's name in the UI language: `Deny` on `deny` and
/// `Allow write` on `allow` are translated; other names stay.
pub open spec fn option_name_of(id: Seq<char>, name: Seq<char>, zh: bool) -> Seq<char> {
    if zh && id == "deny"@ && name == "Deny"@ {
        "拒绝"@
    } else if zh && id == "allow"@ && name == "Allow write"@ {
        "允许写入"@
    } else {
        name
    }
}

/// An ask option's name in the UI language.
pub fn option_name(id: &str, name: &str, zh: bool) -> (r: String)
    ensures
        r@ == option_name_of(id@, name@, zh),
{
    if zh && str_eq(id, "deny") && str_eq(name, "Deny") {
        "拒绝".to_owned()
    } else if zh && str_eq(id, "allow") && str_eq(name, "Allow write") {
        "允许写入".to_owned()
    } else {
        name.to_owned()
    }
}

/// What a key does on an open permission ask.
#[derive(Clone, Copy, Debug, PartialEq, Eq, Structural)]
pub enum AskStep {
    /// Nothing.
    Keep,
    /// Move the highlight to this option.
    Highlight(usize),
    /// Answer with the option at this position.
    Answer(usize),
    /// Cancel the ask.
    Cancel,
}

pub open spec fn ask_step_of(sel: usize, options: usize, key: KeyEvent) -> AskStep {
    let n: int = if options > 1 { options as int } else { 1 };
    match key.code {
        KeyCode::Esc => AskStep::Cancel,
        KeyCode::Char(c) => if c == 'c' && (key.modifiers & CONTROL) != 0 { AskStep::Cancel } else { AskStep::Keep },
        KeyCode::Up => AskStep::Highlight(if sel == 0 { (n - 1) as usize } else { (sel - 1) as usize }),
        KeyCode::Down => AskStep::Highlight(((sel + 1) % n) as usize),
        KeyCode::Enter => if sel < options { AskStep::Answer(sel) } else { AskStep::Cancel },
        _ => AskStep::Keep,
    }
}

/// A key on a permission ask with `options` options and `sel` highlighted:
/// Esc or Ctrl+C cancels, the arrows wrap, Enter answers with the
/// highlighted option (cancelling when there is none).
pub fn ask_step(sel: usize, options: usize, key: KeyEvent) -> (r: AskStep)
    requires
        sel < usize::MAX,
    ensures
        r == ask_step_of(sel, options, key),
{
    let n: usize = if options > 1 { options } else { 1 };
    match key.code {
        KeyCode::Esc => AskStep::Cancel,
        KeyCode::Char(c) => if c == 'c' && (key.modifiers & CONTROL) != 0 { AskStep::Cancel } else { AskStep::Keep },
        KeyCode::Up => AskStep::Highlight(if sel == 0 { n - 1 } else { sel - 1 }),
        KeyCode::Down => AskStep::Highlight((sel + 1) % n),
        KeyCode::Enter => if sel < options { AskStep::Answer(sel) } else { AskStep::Cancel },
        _ => AskStep::Keep,
    }
}

/// A form's description pane under a key: the page keys scroll it always,
/// Home and End only while the field is not a text editor; `None` hands the
/// key to the form.
pub open spec fn form_pane_scroll_of(scroll: usize, code: KeyCode, editing_text: bool) -> Option<usize> {
    match code {
        KeyCode::PageUp => Some(if scroll >= 5 { (scroll - 5) as usize } else { 0 }),
        KeyCode::PageDown => Some(if scroll <= usize::MAX - 5 { (scroll + 5) as usize } else { usize::MAX }),
        KeyCode::Home => if !editing_text { Some(0) } else { None },
        KeyCode::End => if !editing_text { Some(usize::MAX) } else { None },
        _ => None,
    }
}

/// The form description pane's scroll after a key, if the key scrolls it.
pub fn form_pane_scroll(scroll: usize, code: KeyCode, editing_text: bool) -> (r: Option<usize>)
    ensures
        r == form_pane_scroll_of(scroll, code, editing_text),
{
    match code {
        KeyCode::PageUp => Some(scroll.saturating_sub(5)),
        KeyCode::PageDown => Some(scroll.saturating_add(5)),
        KeyCode::Home => if !editing_text { Some(0) } else { None },
        KeyCode::End => if !editing_text { Some(usize::MAX) } else { None },
        _ => None,
    }
}

} // verus!
